//! Walking the speech regions in order and collecting what the engine
//! says of each.
//!
//! The engine itself runs outside this crate. A [`TranscriptionRun`] holds
//! what has been decided so far; [`TranscriptionRun::advance`] takes the
//! engine's reply to the region it last asked for, if any, and says what
//! to do next. The host performs that step and calls `advance` again.

use crate::error::{EngineError, EngineKind};
use crate::segment::{chronological, segment_views, SpeechSegment, SpeechSegmentView};
use crate::text::{is_blank, trim_text};
use vstd::prelude::*;

verus! {

/// Regions with fewer samples than this (a tenth of a second at 16 kHz)
/// are passed over without asking the engine.
pub const MIN_TRANSCRIBE_SAMPLES: usize = 1600;

/// Confidence values are whole millionths: this is a confidence of one.
pub const CONFIDENCE_ONE: u32 = 1_000_000;

/// The confidence credited to a reply from an engine that reports none.
pub const UNSCORED_CONFIDENCE: u32 = 900_000;

/// Progress, in percent, at which transcription begins.
pub const TRANSCRIBE_PROGRESS_BASE: u32 = 30;

/// Share of the progress bar, in percent, that transcription fills.
pub const TRANSCRIBE_PROGRESS_SPAN: u32 = 50;

/// Text that the engine returned for a region, with the time in
/// milliseconds at which the region starts and the time at which it
/// ends.
pub type Transcript = (String, u64, u64);

/// What a [`Transcript`] is, mathematically.
pub struct TranscriptView {
    pub text: Seq<char>,
    pub start_ms: int,
    pub end_ms: int,
}

/// The view of one transcript.
pub open spec fn transcript_view(transcript: Transcript) -> TranscriptView {
    TranscriptView {
        text: transcript.0@,
        start_ms: transcript.1 as int,
        end_ms: transcript.2 as int,
    }
}

/// The views of a sequence of transcripts, in the same order.
pub open spec fn transcript_views(transcripts: Seq<Transcript>) -> Seq<TranscriptView> {
    Seq::new(transcripts.len(), |i: int| transcript_view(transcripts[i]))
}

/// What an engine said of one region.
#[derive(Clone, Debug, PartialEq, Eq)]
pub enum EngineReply {
    /// Text with the engine's own confidence, in millionths.
    Scored { text: String, confidence: u32 },
    /// Text from an engine that reports no confidence.
    Unscored { text: String },
    /// The engine failed on this region.
    Failed { cause: String },
}

/// What an [`EngineReply`] is, mathematically: text with the confidence
/// credited to it, or a failure.
pub enum EngineReplyView {
    Text { text: Seq<char>, confidence: int },
    Failed { cause: Seq<char> },
}

impl View for EngineReply {
    type V = EngineReplyView;

    open spec fn view(&self) -> EngineReplyView {
        match self {
            EngineReply::Scored { text, confidence } => EngineReplyView::Text {
                text: text@,
                confidence: *confidence as int,
            },
            EngineReply::Unscored { text } => EngineReplyView::Text {
                text: text@,
                confidence: UNSCORED_CONFIDENCE as int,
            },
            EngineReply::Failed { cause } => EngineReplyView::Failed { cause: cause@ },
        }
    }
}

/// The view of a reply that may be absent.
pub open spec fn reply_view(reply: Option<EngineReply>) -> Option<EngineReplyView> {
    match reply {
        Some(r) => Some(r@),
        None => None,
    }
}

/// Where a run stands.
#[derive(Clone, Debug, PartialEq, Eq)]
pub enum Phase {
    /// The next region has not been looked at yet.
    Ready,
    /// The engine was asked for the next region; its reply is due.
    Awaiting,
    /// Every region has been dealt with.
    Finished,
    /// The run was stopped at a checkpoint.
    Cancelled,
    /// The engine failed on a region; the run is over.
    Failed { segment_index: usize, cause: String },
}

/// What a [`Phase`] is, mathematically.
pub enum PhaseView {
    Ready,
    Awaiting,
    Finished,
    Cancelled,
    Failed { segment_index: int, cause: Seq<char> },
}

impl View for Phase {
    type V = PhaseView;

    open spec fn view(&self) -> PhaseView {
        match self {
            Phase::Ready => PhaseView::Ready,
            Phase::Awaiting => PhaseView::Awaiting,
            Phase::Finished => PhaseView::Finished,
            Phase::Cancelled => PhaseView::Cancelled,
            Phase::Failed { segment_index, cause } => PhaseView::Failed {
                segment_index: *segment_index as int,
                cause: cause@,
            },
        }
    }
}

impl PhaseView {
    /// Finished, cancelled or failed: nothing more will happen.
    pub open spec fn is_terminal(self) -> bool {
        self is Finished || self is Cancelled || self is Failed
    }
}

/// What the host is to do next.
#[derive(Clone, Copy, Debug, PartialEq, Eq, Structural)]
pub enum Step {
    /// Report `percent`, run the engine on region `index`, and hand its
    /// reply to the next call of `advance`.
    Transcribe { index: usize, percent: u32 },
    /// Report `percent`; region `index` is too short and was passed over.
    Skip { index: usize, percent: u32 },
    /// Every region has been dealt with.
    Finished,
    /// Cancellation was seen at a checkpoint; stop.
    Cancelled,
    /// The engine failed on region `segment_index`; stop.
    Failed { segment_index: usize },
}

/// Progress in percent when region `index` of `total` comes up: from the
/// base, a share of the span in proportion to the regions already dealt
/// with, rounded down.
pub open spec fn transcribe_percent(index: int, total: int) -> int {
    TRANSCRIBE_PROGRESS_BASE + (TRANSCRIBE_PROGRESS_SPAN * index) / (if total > 0 {
        total
    } else {
        1
    })
}

/// Average of `count` confidences that sum to `total`, rounded down; zero
/// if there are none.
pub open spec fn average_confidence(total: int, count: int) -> int {
    if count > 0 {
        total / count
    } else {
        0
    }
}

/// What a [`TranscriptionRun`] is, mathematically.
pub struct RunView<S> {
    /// The regions to walk, in order.
    pub segments: Seq<SpeechSegmentView<S>>,
    /// Index of the first region not dealt with yet.
    pub next: int,
    pub phase: PhaseView,
    /// The texts accepted so far, in the order of their regions.
    pub transcripts: Seq<TranscriptView>,
    /// Sum of the confidences credited to the accepted texts.
    pub total_confidence: int,
}

impl<S> RunView<S> {
    /// The state of a run that has not started.
    pub open spec fn initial(segments: Seq<SpeechSegmentView<S>>) -> RunView<S> {
        RunView {
            segments,
            next: 0,
            phase: PhaseView::Ready,
            transcripts: Seq::empty(),
            total_confidence: 0,
        }
    }

    /// What always holds of a run.
    pub open spec fn well_formed(self) -> bool {
        &&& self.segments.len() <= usize::MAX
        &&& 0 <= self.next <= self.segments.len()
        &&& self.phase is Awaiting ==> self.next < self.segments.len()
        &&& self.transcripts.len() <= self.next
        &&& 0 <= self.total_confidence <= self.transcripts.len() * u32::MAX
    }

    /// The run after the reply to the pending region has been taken in.
    /// Only a run that awaits a reply takes one: a failure ends the run
    /// and names the region; text that is blank after trimming is
    /// dropped; other text is kept, untrimmed, with the region's time
    /// range, and its confidence is added to the total.
    pub open spec fn absorb(self, reply: Option<EngineReplyView>) -> RunView<S> {
        if self.phase is Awaiting {
            match reply {
                None => self,
                Some(EngineReplyView::Failed { cause }) => RunView {
                    phase: PhaseView::Failed { segment_index: self.next, cause },
                    ..self
                },
                Some(EngineReplyView::Text { text, confidence }) => if is_blank(text) {
                    RunView { next: self.next + 1, phase: PhaseView::Ready, ..self }
                } else {
                    RunView {
                        next: self.next + 1,
                        phase: PhaseView::Ready,
                        transcripts: self.transcripts.push(
                            TranscriptView {
                                text,
                                start_ms: self.segments[self.next].start_ms,
                                end_ms: self.segments[self.next].end_ms,
                            },
                        ),
                        total_confidence: self.total_confidence + confidence,
                        ..self
                    }
                },
            }
        } else {
            self
        }
    }

    /// The decision taken at the head of a region, and the run after it.
    /// A ready run first looks at the cancellation flag, then at whether
    /// regions are left, then at the length of the next one. A run in
    /// any other phase repeats what it said last.
    pub open spec fn decide(self, cancelled: bool) -> (RunView<S>, Step) {
        let percent = transcribe_percent(self.next, self.segments.len() as int) as u32;
        match self.phase {
            PhaseView::Ready => if cancelled {
                (RunView { phase: PhaseView::Cancelled, ..self }, Step::Cancelled)
            } else if self.next == self.segments.len() {
                (RunView { phase: PhaseView::Finished, ..self }, Step::Finished)
            } else if self.segments[self.next].samples.len() < MIN_TRANSCRIBE_SAMPLES {
                (
                    RunView { next: self.next + 1, ..self },
                    Step::Skip { index: self.next as usize, percent },
                )
            } else {
                (
                    RunView { phase: PhaseView::Awaiting, ..self },
                    Step::Transcribe { index: self.next as usize, percent },
                )
            },
            PhaseView::Awaiting => (self, Step::Transcribe { index: self.next as usize, percent }),
            PhaseView::Finished => (self, Step::Finished),
            PhaseView::Cancelled => (self, Step::Cancelled),
            PhaseView::Failed { segment_index, .. } => (
                self,
                Step::Failed { segment_index: segment_index as usize },
            ),
        }
    }

    /// One call of `advance`: take in the reply, then decide.
    pub open spec fn advance(self, reply: Option<EngineReplyView>, cancelled: bool) -> (
        RunView<S>,
        Step,
    ) {
        self.absorb(reply).decide(cancelled)
    }
}

/// Progress in percent when region `index` of `total` comes up.
pub fn percent_at(index: usize, total: usize) -> (percent: u32)
    requires
        index <= total,
    ensures
        percent == transcribe_percent(index as int, total as int),
        TRANSCRIBE_PROGRESS_BASE <= percent <= TRANSCRIBE_PROGRESS_BASE + TRANSCRIBE_PROGRESS_SPAN,
{
    let divisor: u128 = if total > 0 {
        total as u128
    } else {
        1
    };
    assert((50 * index) / (divisor as int) <= 50) by (nonlinear_arith)
        requires
            0 <= index <= divisor,
            divisor > 0,
    ;
    let share: u128 = (TRANSCRIBE_PROGRESS_SPAN as u128 * index as u128) / divisor;
    TRANSCRIBE_PROGRESS_BASE + share as u32
}

/// What a finished run reports beside its transcripts.
#[derive(Clone, Copy, Debug, PartialEq, Eq, Structural)]
pub struct RunStats {
    /// How many replies were kept.
    pub transcribed_count: usize,
    /// Their average confidence in millionths, rounded down; zero if none
    /// was kept.
    pub average_confidence: u32,
}

/// A walk over the speech regions of one import.
pub struct TranscriptionRun<S> {
    segments: Vec<SpeechSegment<S>>,
    next: usize,
    phase: Phase,
    transcripts: Vec<Transcript>,
    total_confidence: u128,
}

impl<S> View for TranscriptionRun<S> {
    type V = RunView<S>;

    closed spec fn view(&self) -> RunView<S> {
        RunView {
            segments: segment_views(self.segments@),
            next: self.next as int,
            phase: self.phase@,
            transcripts: transcript_views(self.transcripts@),
            total_confidence: self.total_confidence as int,
        }
    }
}

impl<S> TranscriptionRun<S> {
    /// A run over `segments` that has not started.
    pub fn new(segments: Vec<SpeechSegment<S>>) -> (run: TranscriptionRun<S>)
        ensures
            run@ == RunView::initial(segment_views(segments@)),
            run@.well_formed(),
    {
        let total: usize = segments.len();
        assert(segment_views(segments@).len() == total);
        let run = TranscriptionRun {
            segments,
            next: 0,
            phase: Phase::Ready,
            transcripts: Vec::new(),
            total_confidence: 0,
        };
        assert(run@.transcripts =~= Seq::empty());
        run
    }

    /// The regions this run walks.
    pub fn segments(&self) -> (segments: &Vec<SpeechSegment<S>>)
        ensures
            segment_views(segments@) == self@.segments,
    {
        &self.segments
    }

    /// Where the run stands.
    pub fn phase(&self) -> (phase: &Phase)
        ensures
            phase@ == self@.phase,
    {
        &self.phase
    }

    /// Takes in the engine's reply to the region asked for last, if one
    /// is due, and decides the next step.
    ///
    /// A reply handed to a run that awaits none is ignored. Cancellation
    /// is looked at only at the head of a region, never while a reply is
    /// due.
    pub fn advance(&mut self, reply: Option<EngineReply>, cancelled: bool) -> (step: Step)
        requires
            old(self)@.well_formed(),
        ensures
            (final(self)@, step) == old(self)@.advance(reply_view(reply), cancelled),
            final(self)@.well_formed(),
            step matches Step::Transcribe { index, .. } ==> index == final(self)@.next && index
                < final(self)@.segments.len(),
            step matches Step::Skip { index, .. } ==> index + 1 == final(self)@.next,
    {
        let total: usize = self.segments.len();
        if let Phase::Awaiting = self.phase {
            match reply {
                None => {},
                Some(EngineReply::Failed { cause }) => {
                    self.phase = Phase::Failed { segment_index: self.next, cause };
                },
                Some(EngineReply::Scored { text, confidence }) => {
                    self.accept(text, confidence);
                },
                Some(EngineReply::Unscored { text }) => {
                    self.accept(text, UNSCORED_CONFIDENCE);
                },
            }
        }
        let ghost taken = self@;
        assert(taken == old(self)@.absorb(reply_view(reply)));
        match &self.phase {
            Phase::Ready => {
                if cancelled {
                    self.phase = Phase::Cancelled;
                    Step::Cancelled
                } else if self.next == total {
                    self.phase = Phase::Finished;
                    Step::Finished
                } else {
                    let index: usize = self.next;
                    let percent: u32 = percent_at(index, total);
                    if self.segments[index].samples.len() < MIN_TRANSCRIBE_SAMPLES {
                        self.next = index + 1;
                        Step::Skip { index, percent }
                    } else {
                        self.phase = Phase::Awaiting;
                        Step::Transcribe { index, percent }
                    }
                }
            },
            Phase::Awaiting => Step::Transcribe {
                index: self.next,
                percent: percent_at(self.next, total),
            },
            Phase::Finished => Step::Finished,
            Phase::Cancelled => Step::Cancelled,
            Phase::Failed { segment_index, .. } => Step::Failed { segment_index: *segment_index },
        }
    }

    /// Takes in text for the pending region.
    fn accept(&mut self, text: String, confidence: u32)
        requires
            old(self)@.well_formed(),
            old(self)@.phase is Awaiting,
        ensures
            final(self)@ == old(self)@.absorb(
                Some(EngineReplyView::Text { text: text@, confidence: confidence as int }),
            ),
            final(self)@.well_formed(),
    {
        let index: usize = self.next;
        let total: usize = self.segments.len();
        assert(index < total) by {
            assert(self@.next < self@.segments.len());
        }
        self.phase = Phase::Ready;
        self.next = index + 1;
        if !trim_text(text.as_str()).as_str().is_empty() {
            let ghost before = self.transcripts@;
            let start_ms: u64 = self.segments[index].start_timestamp_ms;
            let end_ms: u64 = self.segments[index].end_timestamp_ms;
            self.transcripts.push((text, start_ms, end_ms));
            assert(self.transcripts@.len() * u32::MAX == before.len() * u32::MAX + u32::MAX)
                by (nonlinear_arith)
                requires
                    self.transcripts@.len() == before.len() + 1,
            ;
            self.total_confidence = self.total_confidence + confidence as u128;
            assert(transcript_views(self.transcripts@) =~= transcript_views(before).push(
                transcript_view(self.transcripts@.last()),
            ));
        }
    }

    /// The failure that ended the run, as an error of the engine `kind`;
    /// nothing if the run did not fail.
    pub fn failure(&self, kind: EngineKind) -> (error: Option<EngineError>)
        ensures
            match self@.phase {
                PhaseView::Failed { segment_index, cause } => error matches Some(
                    EngineError::InferenceFailed { kind: k, segment_index: i, cause: c },
                ) && k == kind && i == segment_index && c@ == cause,
                _ => error is None,
            },
    {
        match &self.phase {
            Phase::Failed { segment_index, cause } => Some(
                EngineError::InferenceFailed {
                    kind,
                    segment_index: *segment_index,
                    cause: cause.clone(),
                },
            ),
            _ => None,
        }
    }

    /// How many replies were kept so far, and their average confidence.
    pub fn stats(&self) -> (stats: RunStats)
        requires
            self@.well_formed(),
        ensures
            stats.transcribed_count == self@.transcripts.len(),
            stats.average_confidence == average_confidence(
                self@.total_confidence,
                self@.transcripts.len() as int,
            ),
    {
        let count: usize = self.transcripts.len();
        let average: u32 = if count > 0 {
            assert(self.total_confidence / (count as u128) <= u32::MAX) by (nonlinear_arith)
                requires
                    0 <= self.total_confidence <= count * u32::MAX,
                    count > 0,
            ;
            (self.total_confidence / count as u128) as u32
        } else {
            0
        };
        RunStats { transcribed_count: count, average_confidence: average }
    }

    /// Ends the run and hands out what it collected. Only a finished run
    /// hands anything out: after a failure or a cancellation the texts
    /// collected up to then are dropped with the run.
    pub fn finish(self) -> (output: Option<(Vec<Transcript>, RunStats)>)
        requires
            self@.well_formed(),
        ensures
            self@.phase is Finished <==> output is Some,
            output matches Some((transcripts, stats)) ==> {
                &&& transcript_views(transcripts@) == self@.transcripts
                &&& stats.transcribed_count == self@.transcripts.len()
                &&& stats.average_confidence == average_confidence(
                    self@.total_confidence,
                    self@.transcripts.len() as int,
                )
            },
    {
        let stats = self.stats();
        match self.phase {
            Phase::Finished => Some((self.transcripts, stats)),
            _ => None,
        }
    }
}

impl<S> SpeechSegmentView<S> {
    /// Long enough to be handed to the engine.
    pub open spec fn transcribable(self) -> bool {
        self.samples.len() >= MIN_TRANSCRIBE_SAMPLES
    }
}

/// Whether the reply to region `i` is kept: the region is long enough
/// and the reply is text that is not blank.
pub open spec fn is_kept<S>(
    segments: Seq<SpeechSegmentView<S>>,
    replies: Seq<EngineReplyView>,
    i: int,
) -> bool {
    segments[i].transcribable() && (replies[i] matches EngineReplyView::Text { text, .. }
        && !is_blank(text))
}

/// Whether region `i` ends the run: it is long enough and the engine
/// fails on it.
pub open spec fn is_fatal<S>(
    segments: Seq<SpeechSegmentView<S>>,
    replies: Seq<EngineReplyView>,
    i: int,
) -> bool {
    segments[i].transcribable() && replies[i] is Failed
}

/// The texts kept from the first `n` regions, in the order of the
/// regions, when the engine answers region `i` with `replies[i]`.
pub open spec fn kept<S>(
    segments: Seq<SpeechSegmentView<S>>,
    replies: Seq<EngineReplyView>,
    n: int,
) -> Seq<TranscriptView>
    decreases n,
{
    if n <= 0 {
        Seq::empty()
    } else if is_kept(segments, replies, n - 1) {
        kept(segments, replies, n - 1).push(
            TranscriptView {
                text: replies[n - 1]->text,
                start_ms: segments[n - 1].start_ms,
                end_ms: segments[n - 1].end_ms,
            },
        )
    } else {
        kept(segments, replies, n - 1)
    }
}

/// The sum of the confidences credited to the texts kept from the first
/// `n` regions.
pub open spec fn credited<S>(
    segments: Seq<SpeechSegmentView<S>>,
    replies: Seq<EngineReplyView>,
    n: int,
) -> int
    decreases n,
{
    if n <= 0 {
        0
    } else if is_kept(segments, replies, n - 1) {
        credited(segments, replies, n - 1) + replies[n - 1]->confidence
    } else {
        credited(segments, replies, n - 1)
    }
}

/// Each text covers a time range that ends no earlier than it starts,
/// and no later than the next one starts.
pub open spec fn in_time_order(transcripts: Seq<TranscriptView>) -> bool {
    &&& forall|i: int|
        0 <= i < transcripts.len() ==> 0 <= (#[trigger] transcripts[i]).start_ms
            <= transcripts[i].end_ms
    &&& forall|i: int, j: int|
        0 <= i < j < transcripts.len() ==> (#[trigger] transcripts[i]).end_ms <= (
        #[trigger] transcripts[j]).start_ms
}

/// The texts that are kept follow one another in time as their regions
/// do: if the regions come in chronological order, so do the texts.
pub proof fn lemma_kept_in_time_order<S>(
    segments: Seq<SpeechSegmentView<S>>,
    replies: Seq<EngineReplyView>,
    n: int,
)
    requires
        chronological(segments),
        0 <= n <= segments.len(),
    ensures
        in_time_order(kept(segments, replies, n)),
        forall|j: int|
            0 <= j < kept(segments, replies, n).len() && n < segments.len() ==> (
            #[trigger] kept(segments, replies, n)[j]).end_ms <= segments[n].start_ms,
    decreases n,
{
    if n > 0 {
        lemma_kept_in_time_order(segments, replies, n - 1);
        let before = kept(segments, replies, n - 1);
        let now = kept(segments, replies, n);
        assert(segments[n - 1].well_formed());
        assert forall|j: int| 0 <= j < now.len() && n < segments.len() implies (#[trigger] now[j]).end_ms
            <= segments[n].start_ms by {
            assert(segments[n - 1].end_ms <= segments[n].start_ms);
            if j < before.len() {
                assert(now[j] == before[j]);
            }
        }
        assert forall|i: int| 0 <= i < now.len() implies 0 <= (#[trigger] now[i]).start_ms
            <= now[i].end_ms by {
            if i < before.len() {
                assert(now[i] == before[i]);
            }
        }
        assert forall|i: int, j: int| 0 <= i < j < now.len() implies (#[trigger] now[i]).end_ms <= (
        #[trigger] now[j]).start_ms by {
            assert(now[i] == before[i]);
            if j < before.len() {
                assert(now[j] == before[j]);
            }
        }
    }
}

/// The run that has dealt with the first `k` regions and keeps what was
/// kept of them, in the given phase.
pub open spec fn run_at<S>(
    segments: Seq<SpeechSegmentView<S>>,
    replies: Seq<EngineReplyView>,
    k: int,
    phase: PhaseView,
) -> RunView<S> {
    RunView {
        segments,
        next: k,
        phase,
        transcripts: kept(segments, replies, k),
        total_confidence: credited(segments, replies, k),
    }
}

/// The run after `calls` calls of `advance` by a host that follows the
/// directions: it hands in the reply to the pending region when one is
/// due, and never sees the cancellation flag raised.
pub open spec fn drive<S>(run: RunView<S>, replies: Seq<EngineReplyView>, calls: nat) -> RunView<S>
    decreases calls,
{
    if calls == 0 {
        run
    } else {
        let reply = if run.phase is Awaiting {
            Some(replies[run.next])
        } else {
            None
        };
        drive(run.advance(reply, false).0, replies, (calls - 1) as nat)
    }
}

/// Once a run is over it stays as it is, whatever is handed in.
pub proof fn lemma_run_over_stays_over<S>(
    run: RunView<S>,
    reply: Option<EngineReplyView>,
    cancelled: bool,
)
    requires
        run.phase.is_terminal(),
    ensures
        run.advance(reply, cancelled).0 == run,
{
}

/// A call of `advance` keeps the run well formed and keeps the order:
/// the regions stay the same, the position never moves back (it moves
/// on by two regions at most: the one whose reply is taken in and a
/// short one after it), and what was kept before is still there, in the
/// same order, with at most one text added at the end.
pub proof fn lemma_advance_keeps_order<S>(
    run: RunView<S>,
    reply: Option<EngineReplyView>,
    cancelled: bool,
)
    requires
        run.well_formed(),
        reply matches Some(EngineReplyView::Text { confidence, .. }) ==> 0 <= confidence
            <= u32::MAX,
    ensures
        run.advance(reply, cancelled).0.well_formed(),
        run.advance(reply, cancelled).0.segments == run.segments,
        run.next <= run.advance(reply, cancelled).0.next <= run.next + 2,
        run.transcripts.is_prefix_of(run.advance(reply, cancelled).0.transcripts),
        run.advance(reply, cancelled).0.transcripts.len() <= run.transcripts.len() + 1,
{
    let taken = run.absorb(reply);
    assert((run.transcripts.len() + 1) * u32::MAX == run.transcripts.len() * u32::MAX + u32::MAX)
        by (nonlinear_arith);
    assert(run.transcripts.is_prefix_of(taken.transcripts));
    assert(taken.transcripts.is_prefix_of(taken.decide(cancelled).0.transcripts));
}

/// Cancellation is seen at the head of a region and nowhere else: a
/// ready run that sees the flag raised stops at once and keeps what it
/// has; a run that awaits a reply takes the reply in first.
pub proof fn lemma_cancellation_at_checkpoints<S>(run: RunView<S>, reply: Option<EngineReplyView>)
    ensures
        run.phase is Ready ==> run.advance(reply, true) == (
            RunView { phase: PhaseView::Cancelled, ..run },
            Step::Cancelled,
        ),
        run.phase is Awaiting ==> run.advance(reply, true).0.transcripts == run.absorb(
            reply,
        ).transcripts,
{
}

proof fn lemma_drive_over<S>(run: RunView<S>, replies: Seq<EngineReplyView>, calls: nat)
    requires
        run.phase.is_terminal(),
    ensures
        drive(run, replies, calls) == run,
    decreases calls,
{
    if calls > 0 {
        lemma_drive_over(run, replies, (calls - 1) as nat);
    }
}

proof fn lemma_drive<S>(
    segments: Seq<SpeechSegmentView<S>>,
    replies: Seq<EngineReplyView>,
    k: int,
    awaiting: bool,
    calls: nat,
    stop: int,
)
    requires
        replies.len() == segments.len(),
        0 <= k <= stop <= segments.len(),
        forall|i: int| 0 <= i < stop ==> !is_fatal(segments, replies, i),
        stop < segments.len() ==> is_fatal(segments, replies, stop),
        awaiting ==> k < segments.len() && segments[k].transcribable(),
        calls >= segments.len() - k + if awaiting {
            0int
        } else {
            1int
        },
    ensures
        drive(
            run_at(
                segments,
                replies,
                k,
                if awaiting {
                    PhaseView::Awaiting
                } else {
                    PhaseView::Ready
                },
            ),
            replies,
            calls,
        ) == run_at(
            segments,
            replies,
            stop,
            if stop < segments.len() {
                PhaseView::Failed { segment_index: stop, cause: replies[stop]->cause }
            } else {
                PhaseView::Finished
            },
        ),
    decreases segments.len() - k, if awaiting { 0int } else { 1int },
{
    let rest = (calls - 1) as nat;
    if awaiting {
        let run = run_at(segments, replies, k, PhaseView::Awaiting);
        let taken = run.absorb(Some(replies[k]));
        if replies[k] is Failed {
            assert(is_fatal(segments, replies, k));
            lemma_drive_over(taken, replies, rest);
        } else {
            assert(taken == run_at(segments, replies, k + 1, PhaseView::Ready));
            assert(drive(run, replies, calls) == drive(taken, replies, calls));
            lemma_drive(segments, replies, k + 1, false, calls, stop);
        }
    } else {
        let run = run_at(segments, replies, k, PhaseView::Ready);
        if k == segments.len() {
            lemma_drive_over(run.decide(false).0, replies, rest);
        } else if !segments[k].transcribable() {
            assert(run.decide(false).0 == run_at(segments, replies, k + 1, PhaseView::Ready));
            lemma_drive(segments, replies, k + 1, false, rest, stop);
        } else {
            assert(run.decide(false).0 == run_at(segments, replies, k, PhaseView::Awaiting));
            lemma_drive(segments, replies, k, true, rest, stop);
        }
    }
}

/// A run that is driven to its end keeps exactly the texts it should,
/// in the order of their regions.
///
/// Let the engine answer region `i` with `replies[i]`, and let the host
/// follow the directions for one call more than there are regions. If
/// the engine fails on no region that is long enough, the run is
/// finished, and it holds the text of every region that is long enough
/// and whose text is not blank, with the sum of their confidences.
pub proof fn lemma_run_collects_in_order<S>(
    segments: Seq<SpeechSegmentView<S>>,
    replies: Seq<EngineReplyView>,
)
    requires
        replies.len() == segments.len(),
        forall|i: int| 0 <= i < segments.len() ==> !is_fatal(segments, replies, i),
    ensures
        drive(RunView::initial(segments), replies, segments.len() + 1) == run_at(
            segments,
            replies,
            segments.len() as int,
            PhaseView::Finished,
        ),
{
    lemma_drive(segments, replies, 0, false, segments.len() + 1, segments.len() as int);
}

/// The first failure of the engine ends the run and names its region.
///
/// If the engine fails on region `at`, which is long enough, and on no
/// such region before it, then the run ends as failed at `at`, and what
/// it holds is what was kept of the regions before `at`.
pub proof fn lemma_first_failure_ends_run<S>(
    segments: Seq<SpeechSegmentView<S>>,
    replies: Seq<EngineReplyView>,
    at: int,
)
    requires
        replies.len() == segments.len(),
        0 <= at < segments.len(),
        is_fatal(segments, replies, at),
        forall|i: int| 0 <= i < at ==> !is_fatal(segments, replies, i),
    ensures
        drive(RunView::initial(segments), replies, segments.len() + 1) == run_at(
            segments,
            replies,
            at,
            PhaseView::Failed { segment_index: at, cause: replies[at]->cause },
        ),
{
    lemma_drive(segments, replies, 0, false, segments.len() + 1, at);
}

} // verus!
