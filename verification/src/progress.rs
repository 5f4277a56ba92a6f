//! What the host is told while an import runs, and when it ends.

use crate::error::{failure_message, ImportFailure};
use crate::import_state::ImportState;
use crate::orchestrator::{percent_at, transcribe_percent};
use crate::persistence::CommitPlan;
use crate::pipeline::Stage;
use crate::text::{decimal, push_decimal};
use crate::units::Seconds;
use vstd::prelude::*;

verus! {

/// One progress report.
#[derive(Clone, Debug, PartialEq, Eq)]
pub struct ImportProgress {
    /// One of `copying`, `decoding`, `vad`, `transcribing`, `saving`,
    /// `complete`.
    pub stage: String,
    /// From 0 to 100.
    pub progress_percentage: u32,
    pub message: String,
}

/// What the closing report of a successful import carries.
#[derive(Clone, Debug, PartialEq, Eq)]
pub struct ImportResult {
    pub meeting_id: String,
    pub title: String,
    pub segments_count: usize,
    pub duration_seconds: Seconds,
}

/// What the closing report of a failed import carries.
#[derive(Clone, Debug, PartialEq, Eq)]
pub struct ImportError {
    pub error: String,
}

/// The answer to a start request that was taken on.
#[derive(Clone, Debug, PartialEq, Eq)]
pub struct ImportStarted {
    pub message: String,
}

/// The fixed points of an import at which progress is reported.
#[derive(Clone, Copy, Debug, PartialEq, Eq, Structural)]
pub enum Milestone {
    CreatingFolder,
    CopyingAudio,
    DecodingAudio,
    ConvertingFormat,
    DetectingSpeech,
    LoadingEngine,
    Saving,
    Complete,
}

impl Milestone {
    /// The name of the stage that the milestone belongs to.
    pub open spec fn stage(self) -> Seq<char> {
        match self {
            Milestone::CreatingFolder => "copying"@,
            Milestone::CopyingAudio => "copying"@,
            Milestone::DecodingAudio => "decoding"@,
            Milestone::ConvertingFormat => "decoding"@,
            Milestone::DetectingSpeech => "vad"@,
            Milestone::LoadingEngine => "transcribing"@,
            Milestone::Saving => "saving"@,
            Milestone::Complete => "complete"@,
        }
    }

    /// How far the import has got at the milestone, in percent.
    pub open spec fn percent(self) -> int {
        match self {
            Milestone::CreatingFolder => 5,
            Milestone::CopyingAudio => 10,
            Milestone::DecodingAudio => 15,
            Milestone::ConvertingFormat => 20,
            Milestone::DetectingSpeech => 25,
            Milestone::LoadingEngine => 30,
            Milestone::Saving => 85,
            Milestone::Complete => 100,
        }
    }

    /// What the user is told at the milestone.
    pub open spec fn message(self) -> Seq<char> {
        match self {
            Milestone::CreatingFolder => "Creating meeting folder..."@,
            Milestone::CopyingAudio => "Copying audio file..."@,
            Milestone::DecodingAudio => "Decoding audio file..."@,
            Milestone::ConvertingFormat => "Converting audio format..."@,
            Milestone::DetectingSpeech => "Detecting speech segments..."@,
            Milestone::LoadingEngine => "Loading transcription engine..."@,
            Milestone::Saving => "Creating meeting..."@,
            Milestone::Complete => "Import complete"@,
        }
    }

    /// The stage of the import at which the milestone is reached.
    pub open spec fn reached_in(self) -> Stage {
        match self {
            Milestone::CreatingFolder => Stage::Copying,
            Milestone::CopyingAudio => Stage::Copying,
            Milestone::DecodingAudio => Stage::Decoding,
            Milestone::ConvertingFormat => Stage::Decoding,
            Milestone::DetectingSpeech => Stage::Segmenting,
            Milestone::LoadingEngine => Stage::Transcribing,
            Milestone::Saving => Stage::Persisting,
            Milestone::Complete => Stage::Complete,
        }
    }

    /// The stage of the import at which the milestone is reached.
    pub fn stage_reached(self) -> (stage: Stage)
        ensures
            stage == self.reached_in(),
    {
        match self {
            Milestone::CreatingFolder => Stage::Copying,
            Milestone::CopyingAudio => Stage::Copying,
            Milestone::DecodingAudio => Stage::Decoding,
            Milestone::ConvertingFormat => Stage::Decoding,
            Milestone::DetectingSpeech => Stage::Segmenting,
            Milestone::LoadingEngine => Stage::Transcribing,
            Milestone::Saving => Stage::Persisting,
            Milestone::Complete => Stage::Complete,
        }
    }

    /// The progress report for the milestone.
    pub fn progress(self) -> (report: ImportProgress)
        ensures
            report.stage@ == self.stage(),
            report.progress_percentage == self.percent(),
            report.message@ == self.message(),
    {
        let (stage, percent, message): (&str, u32, &str) = match self {
            Milestone::CreatingFolder => ("copying", 5, "Creating meeting folder..."),
            Milestone::CopyingAudio => ("copying", 10, "Copying audio file..."),
            Milestone::DecodingAudio => ("decoding", 15, "Decoding audio file..."),
            Milestone::ConvertingFormat => ("decoding", 20, "Converting audio format..."),
            Milestone::DetectingSpeech => ("vad", 25, "Detecting speech segments..."),
            Milestone::LoadingEngine => ("transcribing", 30, "Loading transcription engine..."),
            Milestone::Saving => ("saving", 85, "Creating meeting..."),
            Milestone::Complete => ("complete", 100, "Import complete"),
        };
        ImportProgress {
            stage: stage.to_owned(),
            progress_percentage: percent,
            message: message.to_owned(),
        }
    }
}

/// Progress never runs backwards: a milestone of a later stage reports
/// at least as much as one of an earlier stage, none reports more than
/// a hundred percent, and what is reported while speech is detected and
/// while regions are transcribed lies between the milestones around it.
pub proof fn lemma_progress_only_grows(earlier: Milestone, later: Milestone)
    requires
        earlier.reached_in().rank() <= later.reached_in().rank(),
    ensures
        earlier.reached_in().rank() < later.reached_in().rank() ==> earlier.percent()
            < later.percent(),
        0 <= earlier.percent() <= 100,
        forall|detector_percent: int|
            0 <= detector_percent <= 100 ==> Milestone::DetectingSpeech.percent()
                <= #[trigger] detection_percent(detector_percent)
                <= Milestone::LoadingEngine.percent(),
        forall|index: int, total: int|
            0 <= index <= total ==> Milestone::LoadingEngine.percent() <= #[trigger] transcribe_percent(
                index,
                total,
            ) < Milestone::Saving.percent(),
{
    assert forall|index: int, total: int| 0 <= index <= total implies 30 <= #[trigger] transcribe_percent(
        index,
        total,
    ) < 85 by {
        let divisor = if total > 0 {
            total
        } else {
            1
        };
        assert(0 <= (50 * index) / divisor <= 50) by (nonlinear_arith)
            requires
                0 <= index <= divisor,
                divisor > 0,
        ;
    }
}

/// Overall progress while speech is being detected: a twentieth of the
/// detector's own percentage on top of 25, rounded down.
pub open spec fn detection_percent(detector_percent: int) -> int {
    25 + detector_percent / 20
}

/// What the user is told while speech is being detected.
pub open spec fn detection_message(detector_percent: nat, found: nat) -> Seq<char> {
    "Detecting speech segments... "@ + decimal(detector_percent) + "% ("@ + decimal(found)
        + " found)"@
}

/// The progress report while speech is being detected, the detector
/// itself being `detector_percent` through with `found` regions so far.
pub fn detection_progress(detector_percent: u32, found: usize) -> (report: ImportProgress)
    ensures
        report.stage@ == "vad"@,
        report.progress_percentage == detection_percent(detector_percent as int),
        report.message@ == detection_message(detector_percent as nat, found as nat),
        detector_percent <= 100 ==> 25 <= report.progress_percentage <= 30,
{
    let mut message: String = "Detecting speech segments... ".to_owned();
    push_decimal(&mut message, detector_percent as u64);
    message.append("% (");
    push_decimal(&mut message, found as u64);
    message.append(" found)");
    ImportProgress {
        stage: "vad".to_owned(),
        progress_percentage: 25 + detector_percent / 20,
        message,
    }
}

/// What speech detection is told each time it asks.
#[derive(Clone, Debug, PartialEq, Eq)]
pub struct DetectionPoll {
    /// The progress to report.
    pub report: ImportProgress,
    /// Whether detection is to go on: not once cancellation was asked
    /// for.
    pub proceed: bool,
}

/// Answers speech detection when it reports how far it is: the
/// progress to pass on, and whether to go on. This is the only way
/// detection learns of a cancellation.
pub fn poll_detection(state: &ImportState, detector_percent: u32, found: usize) -> (poll:
    DetectionPoll)
    ensures
        poll.proceed == !state@.cancelled,
        poll.report.stage@ == "vad"@,
        poll.report.progress_percentage == detection_percent(detector_percent as int),
        poll.report.message@ == detection_message(detector_percent as nat, found as nat),
{
    DetectionPoll {
        report: detection_progress(detector_percent, found),
        proceed: !state.is_cancelled(),
    }
}

/// A span of `ms` milliseconds in tenths of a second, rounded to the
/// nearest tenth, halves up.
pub open spec fn tenths(ms: int) -> int {
    (ms + 50) / 100
}

/// What the user is told when region `index` of `total`, which lasts
/// `duration_ms`, comes up: regions are counted from one, the length is
/// given in seconds with one decimal.
pub open spec fn transcription_message(index: nat, total: nat, duration_ms: nat) -> Seq<char> {
    "Transcribing segment "@ + decimal(index + 1) + " of "@ + decimal(total) + " ("@ + decimal(
        (tenths(duration_ms as int) / 10) as nat,
    ) + "."@ + decimal((tenths(duration_ms as int) % 10) as nat) + "s)..."@
}

/// The progress report when region `index` of `total`, which lasts
/// `duration_ms`, comes up for transcription.
pub fn transcription_progress(index: usize, total: usize, duration_ms: u64) -> (report:
    ImportProgress)
    requires
        index < total,
    ensures
        report.stage@ == "transcribing"@,
        report.progress_percentage == transcribe_percent(index as int, total as int),
        report.message@ == transcription_message(index as nat, total as nat, duration_ms as nat),
        30 <= report.progress_percentage <= 80,
{
    let tenths: u64 = duration_ms / 100 + if duration_ms % 100 >= 50 {
        1
    } else {
        0
    };
    let mut message: String = "Transcribing segment ".to_owned();
    push_decimal(&mut message, index as u64 + 1);
    message.append(" of ");
    push_decimal(&mut message, total as u64);
    message.append(" (");
    push_decimal(&mut message, tenths / 10);
    message.append(".");
    push_decimal(&mut message, tenths % 10);
    message.append("s)...");
    ImportProgress {
        stage: "transcribing".to_owned(),
        progress_percentage: percent_at(index, total),
        message,
    }
}

impl ImportStarted {
    /// The answer to a start request that was taken on.
    pub fn new() -> (started: ImportStarted)
        ensures
            started.message@ == "Import started"@,
    {
        ImportStarted { message: "Import started".to_owned() }
    }
}

impl ImportError {
    /// The closing report of an import that was cancelled.
    pub fn cancelled() -> (report: ImportError)
        ensures
            report.error@ == "Import cancelled"@,
    {
        ImportError { error: "Import cancelled".to_owned() }
    }

    /// The closing report of an import that failed.
    pub fn from_failure(failure: &ImportFailure) -> (report: ImportError)
        ensures
            report.error@ == failure_message(*failure),
    {
        ImportError { error: failure.message() }
    }
}

impl ImportResult {
    /// The closing report of an import whose rows, laid out in `plan`,
    /// were committed.
    pub fn of_plan(plan: &CommitPlan, duration_seconds: Seconds) -> (report: ImportResult)
        ensures
            report.meeting_id@ == plan.meeting.id@,
            report.title@ == plan.meeting.title@,
            report.segments_count == plan.transcripts@.len(),
            report.duration_seconds == duration_seconds,
    {
        ImportResult {
            meeting_id: plan.meeting.id.clone(),
            title: plan.meeting.title.clone(),
            segments_count: plan.transcripts.len(),
            duration_seconds,
        }
    }
}

} // verus!
