//! Time spans in seconds, exact to the millisecond.

use vstd::prelude::*;

verus! {

/// A span of time in seconds, held as a whole number of thousandths. A
/// span from a later time back to an earlier one is below zero.
#[derive(Clone, Copy, Debug, PartialEq, Eq, Structural)]
pub struct Seconds {
    pub thousandths: i128,
}

impl Seconds {
    /// The span of `ms` milliseconds: `ms / 1000` seconds.
    pub fn from_millis(ms: u64) -> (s: Seconds)
        ensures
            s.thousandths == ms,
    {
        Seconds { thousandths: ms as i128 }
    }

    /// The span from the time `start_ms` to the time `end_ms`, both in
    /// milliseconds: the end less the start, below zero if the end comes
    /// first.
    pub fn between(start_ms: u64, end_ms: u64) -> (s: Seconds)
        ensures
            s.thousandths == end_ms - start_ms,
    {
        Seconds { thousandths: end_ms as i128 - start_ms as i128 }
    }
}

} // verus!
