//! The guard that lets one import run at a time, and its cancellation
//! flag.
//!
//! Both flags live in one value that the host owns and hands to whoever
//! needs it. At most one import is in flight: a start while one runs is
//! turned down, never queued.

use vstd::prelude::*;

verus! {

/// Why a start or cancel request was turned down.
#[derive(Clone, Copy, Debug, PartialEq, Eq, Structural)]
pub enum ConcurrencyError {
    /// A start was asked for while an import was running.
    ImportAlreadyInProgress,
    /// A cancellation was asked for while nothing was running.
    NoImportInProgress,
}

/// The two flags that every import shares.
#[derive(Debug)]
pub struct ImportState {
    in_progress: bool,
    cancelled: bool,
}

/// What an [`ImportState`] is, mathematically: two flags, neither of
/// which says anything of the other.
pub struct ImportFlags {
    /// Whether an import is running.
    pub in_progress: bool,
    /// Whether the running import was asked to stop.
    pub cancelled: bool,
}

impl View for ImportState {
    type V = ImportFlags;

    closed spec fn view(&self) -> ImportFlags {
        ImportFlags { in_progress: self.in_progress, cancelled: self.cancelled }
    }
}

impl ImportState {
    /// No import running, no cancellation pending.
    pub fn new() -> (state: ImportState)
        ensures
            state@ == (ImportFlags { in_progress: false, cancelled: false }),
    {
        ImportState { in_progress: false, cancelled: false }
    }

    /// Claims the single import slot. Fails, leaving both flags exactly
    /// as they were, when the slot is taken; otherwise marks the import
    /// as running and clears any stale cancellation.
    pub fn begin(&mut self) -> (r: Result<(), ConcurrencyError>)
        ensures
            old(self)@.in_progress ==> r == Err::<(), ConcurrencyError>(
                ConcurrencyError::ImportAlreadyInProgress,
            ) && final(self)@ == old(self)@,
            !old(self)@.in_progress ==> r is Ok && final(self)@ == (ImportFlags {
                in_progress: true,
                cancelled: false,
            }),
    {
        if self.in_progress {
            return Err(ConcurrencyError::ImportAlreadyInProgress);
        }
        self.in_progress = true;
        self.cancelled = false;
        Ok(())
    }

    /// Releases the import slot, however the import ended. The
    /// cancellation flag keeps its value until the next start.
    pub fn finish(&mut self)
        ensures
            final(self)@ == (ImportFlags { in_progress: false, ..old(self)@ }),
    {
        self.in_progress = false;
    }

    /// Asks the running import to stop. Fails, changing nothing, when no
    /// import is running.
    pub fn request_cancel(&mut self) -> (r: Result<(), ConcurrencyError>)
        ensures
            old(self)@.in_progress ==> r is Ok && final(self)@ == (ImportFlags {
                cancelled: true,
                ..old(self)@
            }),
            !old(self)@.in_progress ==> r == Err::<(), ConcurrencyError>(
                ConcurrencyError::NoImportInProgress,
            ) && final(self)@ == old(self)@,
    {
        if !is_import_in_progress(self) {
            return Err(ConcurrencyError::NoImportInProgress);
        }
        cancel_import(self);
        Ok(())
    }

    /// Reads the cancellation flag.
    pub fn is_cancelled(&self) -> (b: bool)
        ensures
            b == self@.cancelled,
    {
        self.cancelled
    }
}

/// Whether an import is running. The answer is the running flag and
/// does not depend on the cancellation flag.
pub fn is_import_in_progress(state: &ImportState) -> (b: bool)
    ensures
        b == state@.in_progress,
{
    state.in_progress
}

/// Raises the cancellation flag and leaves the running flag alone.
pub fn cancel_import(state: &mut ImportState)
    ensures
        final(state)@ == (ImportFlags { cancelled: true, ..old(state)@ }),
{
    state.cancelled = true;
}

} // verus!
