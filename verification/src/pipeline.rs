//! The stages of one import, and what moves it from one to the next.
//!
//! The host does the work of each stage and reports what came of it as an
//! [`Event`]. [`Pipeline::step`] answers with a [`Directive`]: run the next
//! stage, carry on, or conclude. An import concludes once: as complete,
//! cancelled or failed.

use crate::error::ImportFailure;
use vstd::prelude::*;

verus! {

/// Where an import stands.
#[derive(Clone, Copy, Debug, PartialEq, Eq, Structural)]
pub enum Stage {
    Idle,
    Validating,
    Copying,
    Decoding,
    Segmenting,
    Splitting,
    Transcribing,
    Persisting,
    Complete,
    Cancelled,
    Failed,
}

impl Stage {
    /// Complete, cancelled or failed: the import is over.
    pub open spec fn is_terminal(self) -> bool {
        self == Stage::Complete || self == Stage::Cancelled || self == Stage::Failed
    }

    /// The stage that follows this one when its work succeeds. A terminal
    /// stage is followed by itself.
    pub open spec fn following(self) -> Stage {
        match self {
            Stage::Idle => Stage::Validating,
            Stage::Validating => Stage::Copying,
            Stage::Copying => Stage::Decoding,
            Stage::Decoding => Stage::Segmenting,
            Stage::Segmenting => Stage::Splitting,
            Stage::Splitting => Stage::Transcribing,
            Stage::Transcribing => Stage::Persisting,
            Stage::Persisting => Stage::Complete,
            Stage::Complete => Stage::Complete,
            Stage::Cancelled => Stage::Cancelled,
            Stage::Failed => Stage::Failed,
        }
    }

    /// Whether the cancellation flag is looked at before this stage is
    /// entered: before copying and before every stage of work after it.
    pub open spec fn checks_cancellation(self) -> bool {
        self == Stage::Copying || self == Stage::Decoding || self == Stage::Segmenting || self
            == Stage::Splitting || self == Stage::Transcribing || self == Stage::Persisting
    }

    /// Position of the stage on the way from idle to complete; the two
    /// other endings come last.
    pub open spec fn rank(self) -> int {
        match self {
            Stage::Idle => 0,
            Stage::Validating => 1,
            Stage::Copying => 2,
            Stage::Decoding => 3,
            Stage::Segmenting => 4,
            Stage::Splitting => 5,
            Stage::Transcribing => 6,
            Stage::Persisting => 7,
            Stage::Complete => 8,
            Stage::Cancelled => 9,
            Stage::Failed => 10,
        }
    }

    /// Whether the import is over at this stage.
    pub fn is_over(self) -> (b: bool)
        ensures
            b == self.is_terminal(),
    {
        match self {
            Stage::Complete | Stage::Cancelled | Stage::Failed => true,
            _ => false,
        }
    }

    /// The stage that follows this one when its work succeeds.
    pub fn successor(self) -> (next: Stage)
        ensures
            next == self.following(),
    {
        match self {
            Stage::Idle => Stage::Validating,
            Stage::Validating => Stage::Copying,
            Stage::Copying => Stage::Decoding,
            Stage::Decoding => Stage::Segmenting,
            Stage::Segmenting => Stage::Splitting,
            Stage::Splitting => Stage::Transcribing,
            Stage::Transcribing => Stage::Persisting,
            Stage::Persisting => Stage::Complete,
            Stage::Complete => Stage::Complete,
            Stage::Cancelled => Stage::Cancelled,
            Stage::Failed => Stage::Failed,
        }
    }

    /// Whether the cancellation flag is looked at before this stage is
    /// entered.
    pub fn is_checkpoint(self) -> (b: bool)
        ensures
            b == self.checks_cancellation(),
    {
        match self {
            Stage::Copying
            | Stage::Decoding
            | Stage::Segmenting
            | Stage::Splitting
            | Stage::Transcribing
            | Stage::Persisting => true,
            _ => false,
        }
    }
}

/// What the host reports to the pipeline.
#[derive(Clone, Debug, PartialEq, Eq)]
pub enum Event {
    /// An import was asked for.
    Start,
    /// The meeting folder now exists on disk.
    FolderCreated,
    /// The work of the current stage is done.
    Done,
    /// Cancellation was seen at a checkpoint inside the current stage.
    Interrupted,
    /// The work of the current stage failed.
    Failed(ImportFailure),
}

/// How an import ended.
#[derive(Clone, Debug, PartialEq, Eq)]
pub enum Ending {
    Complete,
    Cancelled,
    Failed(ImportFailure),
}

/// What the host is to do after an event.
#[derive(Clone, Debug, PartialEq, Eq)]
pub enum Directive {
    /// Do the work of `stage`, then report `Done` or `Failed`.
    Run { stage: Stage },
    /// Carry on with the current stage.
    Continue,
    /// The import is over. Remove the meeting folder if `remove_folder`
    /// says so, then send the one closing notification.
    Conclude { ending: Ending, remove_folder: bool },
    /// The event changes nothing: it does not fit the current stage, or
    /// the import was over already.
    Ignore,
}

/// The state of one import.
#[derive(Clone, Copy, Debug, PartialEq, Eq, Structural)]
pub struct Pipeline {
    pub stage: Stage,
    /// Whether the meeting folder exists on disk.
    pub folder_created: bool,
}

impl Pipeline {
    /// Before anything has happened.
    pub open spec fn initial() -> Pipeline {
        Pipeline { stage: Stage::Idle, folder_created: false }
    }

    /// The state an import ends in, from this state.
    pub open spec fn ended(self, stage: Stage) -> Pipeline {
        Pipeline { stage, ..self }
    }

    /// The state after `event`, and the directive given for it.
    ///
    /// `cancelled` is the cancellation flag as read when the event came in.
    /// It matters only when a stage is done and the one that follows is a
    /// checkpoint. A failure or an interruption ends the import from any
    /// stage; the folder is to be removed if it exists. Once the import is
    /// over, every event is ignored.
    pub open spec fn next(self, event: Event, cancelled: bool) -> (Pipeline, Directive) {
        if self.stage.is_terminal() {
            (self, Directive::Ignore)
        } else {
            match event {
                Event::Start => if self.stage == Stage::Idle {
                    (self.ended(Stage::Validating), Directive::Run { stage: Stage::Validating })
                } else {
                    (self, Directive::Ignore)
                },
                Event::FolderCreated => if self.stage == Stage::Copying {
                    (Pipeline { folder_created: true, ..self }, Directive::Continue)
                } else {
                    (self, Directive::Ignore)
                },
                Event::Interrupted => (
                    self.ended(Stage::Cancelled),
                    Directive::Conclude {
                        ending: Ending::Cancelled,
                        remove_folder: self.folder_created,
                    },
                ),
                Event::Failed(failure) => (
                    self.ended(Stage::Failed),
                    Directive::Conclude {
                        ending: Ending::Failed(failure),
                        remove_folder: self.folder_created,
                    },
                ),
                Event::Done => if self.stage == Stage::Idle {
                    (self, Directive::Ignore)
                } else if self.stage.following().checks_cancellation() && cancelled {
                    (
                        self.ended(Stage::Cancelled),
                        Directive::Conclude {
                            ending: Ending::Cancelled,
                            remove_folder: self.folder_created,
                        },
                    )
                } else if self.stage.following() == Stage::Complete {
                    (
                        self.ended(Stage::Complete),
                        Directive::Conclude { ending: Ending::Complete, remove_folder: false },
                    )
                } else {
                    (
                        self.ended(self.stage.following()),
                        Directive::Run { stage: self.stage.following() },
                    )
                },
            }
        }
    }

    /// An import that has not started.
    pub fn new() -> (pipeline: Pipeline)
        ensures
            pipeline == Pipeline::initial(),
    {
        Pipeline { stage: Stage::Idle, folder_created: false }
    }

    /// Takes in `event` and says what to do next.
    pub fn step(&mut self, event: Event, cancelled: bool) -> (directive: Directive)
        ensures
            (*final(self), directive) == old(self).next(event, cancelled),
    {
        if self.stage.is_over() {
            return Directive::Ignore;
        }
        match event {
            Event::Start => {
                if self.stage == Stage::Idle {
                    self.stage = Stage::Validating;
                    Directive::Run { stage: Stage::Validating }
                } else {
                    Directive::Ignore
                }
            },
            Event::FolderCreated => {
                if self.stage == Stage::Copying {
                    self.folder_created = true;
                    Directive::Continue
                } else {
                    Directive::Ignore
                }
            },
            Event::Interrupted => {
                self.stage = Stage::Cancelled;
                Directive::Conclude {
                    ending: Ending::Cancelled,
                    remove_folder: self.folder_created,
                }
            },
            Event::Failed(failure) => {
                self.stage = Stage::Failed;
                Directive::Conclude {
                    ending: Ending::Failed(failure),
                    remove_folder: self.folder_created,
                }
            },
            Event::Done => {
                if self.stage == Stage::Idle {
                    return Directive::Ignore;
                }
                let following = self.stage.successor();
                if following.is_checkpoint() && cancelled {
                    self.stage = Stage::Cancelled;
                    Directive::Conclude {
                        ending: Ending::Cancelled,
                        remove_folder: self.folder_created,
                    }
                } else if following == Stage::Complete {
                    self.stage = Stage::Complete;
                    Directive::Conclude { ending: Ending::Complete, remove_folder: false }
                } else {
                    self.stage = following;
                    Directive::Run { stage: following }
                }
            },
        }
    }
}

/// The state after a whole history of events, each with the cancellation
/// flag as read when it came in, and the directives given along the way.
pub open spec fn replay(start: Pipeline, history: Seq<(Event, bool)>) -> (Pipeline, Seq<Directive>)
    decreases history.len(),
{
    if history.len() == 0 {
        (start, Seq::empty())
    } else {
        let (before, given) = replay(start, history.drop_last());
        let (after, directive) = before.next(history.last().0, history.last().1);
        (after, given.push(directive))
    }
}

/// How many of `directives` conclude an import.
pub open spec fn conclusions(directives: Seq<Directive>) -> nat
    decreases directives.len(),
{
    if directives.len() == 0 {
        0
    } else {
        conclusions(directives.drop_last()) + if directives.last() is Conclude {
            1nat
        } else {
            0nat
        }
    }
}

/// Once an import is over it stays as it is: every further event is
/// ignored.
pub proof fn lemma_over_stays_over(pipeline: Pipeline, event: Event, cancelled: bool)
    requires
        pipeline.stage.is_terminal(),
    ensures
        pipeline.next(event, cancelled) == (pipeline, Directive::Ignore),
{
}

/// From every stage at which the import is not over, one event cancels
/// it and one event fails it, whatever the cancellation flag reads.
pub proof fn lemma_every_stage_can_end(pipeline: Pipeline, failure: ImportFailure, cancelled: bool)
    requires
        !pipeline.stage.is_terminal(),
    ensures
        pipeline.next(Event::Interrupted, cancelled).0.stage == Stage::Cancelled,
        pipeline.next(Event::Failed(failure), cancelled).0.stage == Stage::Failed,
        pipeline.next(Event::Failed(failure), cancelled).1 == (Directive::Conclude {
            ending: Ending::Failed(failure),
            remove_folder: pipeline.folder_created,
        }),
{
}

/// An import only moves forward: no event takes it back to an earlier
/// stage, and a folder that exists is never forgotten.
pub proof fn lemma_stages_only_advance(pipeline: Pipeline, event: Event, cancelled: bool)
    ensures
        pipeline.stage.rank() <= pipeline.next(event, cancelled).0.stage.rank(),
        pipeline.folder_created ==> pipeline.next(event, cancelled).0.folder_created,
        pipeline.next(event, cancelled).1 matches Directive::Run { stage } ==> stage
            == pipeline.stage.following() && stage == pipeline.next(event, cancelled).0.stage,
{
}

/// A directive concludes the import exactly when the event takes it from
/// a stage at which it was not over to one at which it is. The folder is
/// to be removed exactly when it exists and the import did not complete.
pub proof fn lemma_conclusion_marks_the_end(pipeline: Pipeline, event: Event, cancelled: bool)
    ensures
        pipeline.next(event, cancelled).1 is Conclude <==> !pipeline.stage.is_terminal()
            && pipeline.next(event, cancelled).0.stage.is_terminal(),
        pipeline.next(event, cancelled).1 matches Directive::Conclude { ending, remove_folder }
            ==> (remove_folder <==> pipeline.folder_created && !(ending is Complete)),
        pipeline.next(event, cancelled).1 matches Directive::Conclude { ending, .. } ==> (
        ending is Complete <==> pipeline.next(event, cancelled).0.stage == Stage::Complete),
{
}

/// Whatever the host reports, and in whatever order, an import is
/// concluded at most once: exactly once if it is over, not at all if it
/// is still under way.
pub proof fn lemma_concluded_once(history: Seq<(Event, bool)>)
    ensures
        replay(Pipeline::initial(), history).1.len() == history.len(),
        conclusions(replay(Pipeline::initial(), history).1) == if replay(
            Pipeline::initial(),
            history,
        ).0.stage.is_terminal() {
            1nat
        } else {
            0nat
        },
    decreases history.len(),
{
    if history.len() > 0 {
        lemma_concluded_once(history.drop_last());
        let (before, given) = replay(Pipeline::initial(), history.drop_last());
        let (after, directive) = before.next(history.last().0, history.last().1);
        assert(given.push(directive).drop_last() =~= given);
        lemma_conclusion_marks_the_end(before, history.last().0, history.last().1);
    }
}

/// Persisting is directed only from the transcribing stage: as long as
/// the import has not got past transcribing, no directive so far has
/// asked the host to persist anything.
pub proof fn lemma_persisting_comes_last(history: Seq<(Event, bool)>)
    ensures
        replay(Pipeline::initial(), history).0.stage.rank() < Stage::Persisting.rank()
            ==> forall|j: int|
            0 <= j < history.len() ==> #[trigger] replay(Pipeline::initial(), history).1[j] != (
            Directive::Run { stage: Stage::Persisting }),
    decreases history.len(),
{
    lemma_concluded_once(history);
    if history.len() > 0 {
        lemma_persisting_comes_last(history.drop_last());
        lemma_concluded_once(history.drop_last());
    }
}

/// A failure before persisting leaves nothing persisted. If the host
/// reports a failure while the import has not got past transcribing,
/// the import ends as failed, the directive for that event is to remove
/// the folder if it exists, and no directive of the whole history, before
/// or after, asks the host to persist.
pub proof fn lemma_failure_persists_nothing(history: Seq<(Event, bool)>, at: int)
    requires
        0 <= at < history.len(),
        history[at].0 is Failed,
        replay(Pipeline::initial(), history.take(at)).0.stage.rank() < Stage::Persisting.rank(),
    ensures
        replay(Pipeline::initial(), history).0.stage == Stage::Failed,
        replay(Pipeline::initial(), history).1.len() == history.len(),
        replay(Pipeline::initial(), history).1[at] == (Directive::Conclude {
            ending: Ending::Failed(history[at].0->Failed_0),
            remove_folder: replay(Pipeline::initial(), history.take(at)).0.folder_created,
        }),
        forall|j: int|
            0 <= j < history.len() ==> #[trigger] replay(Pipeline::initial(), history).1[j] != (
            Directive::Run { stage: Stage::Persisting }),
    decreases history.len(),
{
    let start = Pipeline::initial();
    lemma_concluded_once(history);
    let init = history.drop_last();
    lemma_concluded_once(init);
    if at == history.len() - 1 {
        assert(history.take(at) =~= init);
        lemma_persisting_comes_last(init);
    } else {
        assert(init.take(at) =~= history.take(at));
        lemma_failure_persists_nothing(init, at);
    }
}

/// The state after `n` stages in a row did their work with no
/// cancellation in sight.
pub open spec fn after_done(pipeline: Pipeline, n: nat) -> Pipeline
    decreases n,
{
    if n == 0 {
        pipeline
    } else {
        after_done(pipeline.next(Event::Done, false).0, (n - 1) as nat)
    }
}

/// An import that nothing fails and nobody cancels completes: from any
/// stage of work, once that stage and each one after it has done its
/// work, the import is complete.
pub proof fn lemma_undisturbed_import_completes(pipeline: Pipeline)
    requires
        !pipeline.stage.is_terminal(),
        pipeline.stage != Stage::Idle,
    ensures
        after_done(pipeline, (Stage::Complete.rank() - pipeline.stage.rank()) as nat).stage
            == Stage::Complete,
    decreases Stage::Complete.rank() - pipeline.stage.rank(),
{
    let following = pipeline.next(Event::Done, false).0;
    if following.stage != Stage::Complete {
        lemma_undisturbed_import_completes(following);
    } else {
        assert(after_done(following, 0) == following);
    }
}

} // verus!
