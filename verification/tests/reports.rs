use audio_import::error::{
    EngineError, EngineKind, ImportFailure, SegmentationError, ValidationError,
};
use audio_import::import_state::{ConcurrencyError, ImportState};
use audio_import::pipeline::Stage;
use audio_import::progress::{
    detection_progress, poll_detection, transcription_progress, ImportError, ImportProgress,
    ImportStarted, Milestone,
};

fn report(stage: &str, percent: u32, message: &str) -> ImportProgress {
    ImportProgress {
        stage: stage.to_string(),
        progress_percentage: percent,
        message: message.to_string(),
    }
}

#[test]
fn milestones_report_fixed_progress() {
    assert_eq!(Milestone::CreatingFolder.progress(), report("copying", 5, "Creating meeting folder..."));
    assert_eq!(Milestone::CopyingAudio.progress(), report("copying", 10, "Copying audio file..."));
    assert_eq!(Milestone::DecodingAudio.progress(), report("decoding", 15, "Decoding audio file..."));
    assert_eq!(Milestone::ConvertingFormat.progress(), report("decoding", 20, "Converting audio format..."));
    assert_eq!(Milestone::DetectingSpeech.progress(), report("vad", 25, "Detecting speech segments..."));
    assert_eq!(
        Milestone::LoadingEngine.progress(),
        report("transcribing", 30, "Loading transcription engine...")
    );
    assert_eq!(Milestone::Saving.progress(), report("saving", 85, "Creating meeting..."));
    assert_eq!(Milestone::Complete.progress(), report("complete", 100, "Import complete"));
}

#[test]
fn milestones_belong_to_stages_and_progress_only_grows() {
    let order = [
        (Milestone::CreatingFolder, Stage::Copying),
        (Milestone::CopyingAudio, Stage::Copying),
        (Milestone::DecodingAudio, Stage::Decoding),
        (Milestone::ConvertingFormat, Stage::Decoding),
        (Milestone::DetectingSpeech, Stage::Segmenting),
        (Milestone::LoadingEngine, Stage::Transcribing),
        (Milestone::Saving, Stage::Persisting),
        (Milestone::Complete, Stage::Complete),
    ];
    let mut last = 0;
    for (milestone, stage) in order {
        assert_eq!(milestone.stage_reached(), stage);
        let percent = milestone.progress().progress_percentage;
        assert!(last < percent && percent <= 100);
        last = percent;
    }
}

#[test]
fn detection_fills_the_band_from_25_to_30_percent() {
    assert_eq!(
        detection_progress(0, 0),
        report("vad", 25, "Detecting speech segments... 0% (0 found)")
    );
    assert_eq!(
        detection_progress(19, 1),
        report("vad", 25, "Detecting speech segments... 19% (1 found)")
    );
    assert_eq!(
        detection_progress(20, 2),
        report("vad", 26, "Detecting speech segments... 20% (2 found)")
    );
    assert_eq!(
        detection_progress(57, 12),
        report("vad", 27, "Detecting speech segments... 57% (12 found)")
    );
    assert_eq!(
        detection_progress(100, 340),
        report("vad", 30, "Detecting speech segments... 100% (340 found)")
    );
    for percent in 0..=100u32 {
        let overall = detection_progress(percent, 0).progress_percentage;
        assert_eq!(overall, 25 + (percent as f32 * 0.05) as u32);
    }
}

#[test]
fn detection_goes_on_until_cancellation_is_asked_for() {
    let mut state = ImportState::new();
    state.begin().unwrap();
    let poll = poll_detection(&state, 40, 3);
    assert!(poll.proceed);
    assert_eq!(poll.report, report("vad", 27, "Detecting speech segments... 40% (3 found)"));

    state.request_cancel().unwrap();
    let poll = poll_detection(&state, 60, 4);
    assert!(!poll.proceed);
    assert_eq!(poll.report.progress_percentage, 28);
}

#[test]
fn transcription_reports_the_region_and_its_length() {
    assert_eq!(
        transcription_progress(0, 10, 1500),
        report("transcribing", 30, "Transcribing segment 1 of 10 (1.5s)...")
    );
    assert_eq!(
        transcription_progress(3, 10, 24_940),
        report("transcribing", 45, "Transcribing segment 4 of 10 (24.9s)...")
    );
    assert_eq!(
        transcription_progress(9, 10, 24_950),
        report("transcribing", 75, "Transcribing segment 10 of 10 (25.0s)...")
    );
    assert_eq!(
        transcription_progress(0, 1, 0),
        report("transcribing", 30, "Transcribing segment 1 of 1 (0.0s)...")
    );
    assert_eq!(
        transcription_progress(1, 3, 49),
        report("transcribing", 46, "Transcribing segment 2 of 3 (0.0s)...")
    );
    assert_eq!(
        transcription_progress(2, 3, 50),
        report("transcribing", 63, "Transcribing segment 3 of 3 (0.1s)...")
    );
}

#[test]
fn start_is_acknowledged() {
    assert_eq!(ImportStarted::new(), ImportStarted { message: "Import started".to_string() });
}

#[test]
fn closing_report_of_a_failure_carries_its_message() {
    assert_eq!(ImportError::cancelled(), ImportError { error: "Import cancelled".to_string() });
    let cases = [
        (ImportFailure::Cancelled, "Import cancelled"),
        (
            ImportFailure::Concurrency(ConcurrencyError::ImportAlreadyInProgress),
            "Import already in progress",
        ),
        (
            ImportFailure::Concurrency(ConcurrencyError::NoImportInProgress),
            "No import in progress",
        ),
        (
            ImportFailure::Validation(ValidationError::NotFound { path: "/in/a.wav".to_string() }),
            "Source file not found: /in/a.wav",
        ),
        (
            ImportFailure::Validation(ValidationError::UnsupportedFormat {
                extension: "txt".to_string(),
            }),
            "Unsupported format: .txt. Supported: mp4, m4a, wav, mp3, flac, ogg, aac, wma",
        ),
        (ImportFailure::StateUnavailable, "App state not available"),
        (ImportFailure::Folder { cause: "read-only volume".to_string() }, "read-only volume"),
        (
            ImportFailure::Segmentation(SegmentationError::TaskPanicked {
                cause: "task 7 panicked".to_string(),
            }),
            "VAD task panicked: task 7 panicked",
        ),
        (
            ImportFailure::Copy { cause: "disk full".to_string() },
            "Failed to copy audio file: disk full",
        ),
        (ImportFailure::Decode { cause: "unknown codec".to_string() }, "unknown codec"),
        (
            ImportFailure::Segmentation(SegmentationError::Detector {
                cause: "model missing".to_string(),
            }),
            "VAD processing failed: model missing",
        ),
        (
            ImportFailure::Segmentation(SegmentationError::EmptyFrame),
            "VAD processing failed: frames hold no samples",
        ),
        (
            ImportFailure::Segmentation(SegmentationError::FrameCount {
                expected: 120,
                found: 7,
            }),
            "VAD processing failed: expected 120 frames, found 7",
        ),
        (
            ImportFailure::Engine(EngineError::InferenceFailed {
                kind: EngineKind::Parakeet,
                segment_index: 12,
                cause: "timeout".to_string(),
            }),
            "Parakeet transcription failed on segment 12: timeout",
        ),
    ];
    for (failure, message) in cases {
        assert_eq!(failure.message(), message);
        assert_eq!(ImportError::from_failure(&failure), ImportError { error: message.to_string() });
    }
    assert_eq!(
        ConcurrencyError::ImportAlreadyInProgress.message(),
        "Import already in progress"
    );
    assert_eq!(ConcurrencyError::NoImportInProgress.message(), "No import in progress");
}
