use audio_import::import_state::{cancel_import, is_import_in_progress, ImportState};
use audio_import::orchestrator::Transcript;
use audio_import::transcript::create_transcript_segments;
use audio_import::units::Seconds;
use audio_import::validate::audio_extensions;

fn seconds(span: Seconds) -> f64 {
    span.thousandths as f64 / 1000.0
}

#[test]
fn test_audio_extensions() {
    let extensions = audio_extensions();
    assert!(extensions.contains(&"mp4"));
    assert!(extensions.contains(&"wav"));
    assert!(extensions.contains(&"mp3"));
    assert!(!extensions.contains(&"txt"));
}

#[test]
fn test_create_transcript_segments_empty() {
    let transcripts: Vec<Transcript> = vec![];
    let segments = create_transcript_segments(&transcripts);
    assert!(segments.is_empty());
}

#[test]
fn test_create_transcript_segments_single() {
    let transcripts = vec![("Hello world".to_string(), 0, 1500)];
    let segments = create_transcript_segments(&transcripts);

    assert_eq!(segments.len(), 1);
    assert_eq!(segments[0].text, "Hello world");
    assert_eq!(segments[0].audio_start_time.map(seconds), Some(0.0));
    assert_eq!(segments[0].audio_end_time.map(seconds), Some(1.5));
}

#[test]
fn test_cancellation_flag() {
    let mut state = ImportState::new();

    assert!(!is_import_in_progress(&state));

    cancel_import(&mut state);
    assert!(state.is_cancelled());
}
