use audio_import::error::{EngineError, EngineKind};
use audio_import::orchestrator::{
    percent_at, EngineReply, Phase, RunStats, Step, TranscriptionRun,
    MIN_TRANSCRIBE_SAMPLES, UNSCORED_CONFIDENCE,
};
use audio_import::segment::SpeechSegment;

fn region(samples: usize, start: u64, end: u64) -> SpeechSegment<f32> {
    SpeechSegment {
        samples: vec![0.25; samples],
        start_timestamp_ms: start,
        end_timestamp_ms: end,
        confidence: 1_000_000,
    }
}

fn scored(text: &str, confidence: u32) -> EngineReply {
    EngineReply::Scored { text: text.to_string(), confidence }
}

fn confidence(value: f64) -> u32 {
    (value * 1_000_000.0).round() as u32
}

/// Drives a run to its end, answering region `i` with `replies[i]`.
fn drive(run: &mut TranscriptionRun<f32>, replies: &[EngineReply]) -> Vec<Step> {
    let mut steps = Vec::new();
    let mut pending: Option<EngineReply> = None;
    loop {
        let step = run.advance(pending.take(), false);
        steps.push(step);
        match step {
            Step::Transcribe { index, .. } => pending = Some(replies[index].clone()),
            Step::Skip { .. } => {}
            Step::Finished | Step::Cancelled | Step::Failed { .. } => return steps,
        }
    }
}

#[test]
fn average_confidence_over_three_replies() {
    let mut run = TranscriptionRun::new(vec![
        region(2000, 0, 100),
        region(2000, 100, 200),
        region(2000, 200, 300),
    ]);
    let replies = [
        scored("one", confidence(0.8)),
        scored("two", confidence(0.6)),
        scored("three", confidence(1.0)),
    ];
    drive(&mut run, &replies);

    let (transcripts, stats) = run.finish().unwrap();
    assert_eq!(transcripts.len(), 3);
    assert_eq!(stats, RunStats { transcribed_count: 3, average_confidence: 800_000 });
    assert_eq!(stats.average_confidence as f64 / 1_000_000.0, 0.8);
}

#[test]
fn average_confidence_leaves_out_blank_replies() {
    let mut run = TranscriptionRun::new(vec![
        region(2000, 0, 100),
        region(2000, 100, 200),
        region(2000, 200, 300),
    ]);
    let replies = [
        scored("one", confidence(0.8)),
        scored(" \t\n", confidence(0.6)),
        scored("three", confidence(1.0)),
    ];
    drive(&mut run, &replies);

    let (transcripts, stats) = run.finish().unwrap();
    assert_eq!(transcripts.len(), 2);
    assert_eq!(stats, RunStats { transcribed_count: 2, average_confidence: 900_000 });
}

#[test]
fn average_confidence_is_zero_without_replies() {
    let mut run = TranscriptionRun::new(Vec::<SpeechSegment<f32>>::new());
    assert_eq!(run.advance(None, false), Step::Finished);
    let (transcripts, stats) = run.finish().unwrap();
    assert!(transcripts.is_empty());
    assert_eq!(stats, RunStats { transcribed_count: 0, average_confidence: 0 });
}

#[test]
fn average_confidence_rounds_down() {
    let mut run = TranscriptionRun::new(vec![region(2000, 0, 1), region(2000, 1, 2)]);
    drive(&mut run, &[scored("a", 1), scored("b", 2)]);
    assert_eq!(run.stats().average_confidence, 1);
}

#[test]
fn short_regions_are_skipped_without_asking_the_engine() {
    assert_eq!(MIN_TRANSCRIBE_SAMPLES, 1600);
    let mut run = TranscriptionRun::new(vec![
        region(1599, 0, 99),
        region(1600, 100, 200),
        region(0, 200, 300),
    ]);
    let replies = [
        EngineReply::Failed { cause: "must not be asked".to_string() },
        scored("kept", 500_000),
        EngineReply::Failed { cause: "must not be asked".to_string() },
    ];
    let steps = drive(&mut run, &replies);

    assert_eq!(
        steps,
        vec![
            Step::Skip { index: 0, percent: 30 },
            Step::Transcribe { index: 1, percent: 46 },
            Step::Skip { index: 2, percent: 63 },
            Step::Finished,
        ]
    );
    let (transcripts, stats) = run.finish().unwrap();
    assert_eq!(
        transcripts,
        vec![("kept".to_string(), 100, 200)]
    );
    assert_eq!(stats.transcribed_count, 1);
    assert_eq!(stats.average_confidence, 500_000);
}

#[test]
fn progress_runs_from_30_to_80_percent() {
    assert_eq!(percent_at(0, 10), 30);
    assert_eq!(percent_at(3, 10), 45);
    assert_eq!(percent_at(9, 10), 75);
    assert_eq!(percent_at(10, 10), 80);
    assert_eq!(percent_at(1, 3), 46);
    assert_eq!(percent_at(0, 0), 30);
}

#[test]
fn transcripts_keep_region_order_and_untrimmed_text() {
    let mut run = TranscriptionRun::new(vec![
        region(2000, 0, 1500),
        region(2000, 2000, 2600),
        region(2000, 3000, 4000),
    ]);
    let replies = [scored("  first ", 1), scored("", 1), scored("third", 1)];
    drive(&mut run, &replies);

    let (transcripts, _) = run.finish().unwrap();
    assert_eq!(
        transcripts,
        vec![
            ("  first ".to_string(), 0, 1500),
            ("third".to_string(), 3000, 4000),
        ]
    );
}

#[test]
fn unscored_replies_are_credited_nine_tenths() {
    assert_eq!(UNSCORED_CONFIDENCE, 900_000);
    let mut run = TranscriptionRun::new(vec![region(2000, 0, 1), region(2000, 1, 2)]);
    let replies = [
        EngineReply::Unscored { text: "a".to_string() },
        EngineReply::Unscored { text: "b".to_string() },
    ];
    drive(&mut run, &replies);
    assert_eq!(run.stats(), RunStats { transcribed_count: 2, average_confidence: 900_000 });
}

#[test]
fn engine_failure_on_region_three_of_ten_ends_the_run() {
    let regions: Vec<SpeechSegment<f32>> =
        (0..10).map(|i| region(2000, i * 100, i * 100 + 100)).collect();
    let mut replies: Vec<EngineReply> = (0..10).map(|_| scored("text", 700_000)).collect();
    replies[3] = EngineReply::Failed { cause: "out of memory".to_string() };
    let mut run = TranscriptionRun::new(regions);

    let steps = drive(&mut run, &replies);

    assert_eq!(steps.last(), Some(&Step::Failed { segment_index: 3 }));
    assert_eq!(steps.len(), 5);
    assert_eq!(
        run.phase(),
        &Phase::Failed { segment_index: 3, cause: "out of memory".to_string() }
    );
    let error = run.failure(EngineKind::Whisper).unwrap();
    assert_eq!(
        error,
        EngineError::InferenceFailed {
            kind: EngineKind::Whisper,
            segment_index: 3,
            cause: "out of memory".to_string(),
        }
    );
    assert_eq!(error.message(), "Whisper transcription failed on segment 3: out of memory");
    assert_eq!(run.advance(Some(scored("late", 1)), false), Step::Failed { segment_index: 3 });
    assert_eq!(run.stats().transcribed_count, 3);
    assert_eq!(run.finish(), None);
}

#[test]
fn cancellation_is_seen_at_the_head_of_a_region() {
    let mut run = TranscriptionRun::new(vec![region(2000, 0, 1), region(2000, 1, 2)]);
    assert_eq!(run.advance(None, false), Step::Transcribe { index: 0, percent: 30 });
    assert_eq!(run.advance(Some(scored("kept", 1)), true), Step::Cancelled);
    assert_eq!(run.phase(), &Phase::Cancelled);
    assert_eq!(run.stats().transcribed_count, 1);
    assert_eq!(run.advance(None, false), Step::Cancelled);
    assert_eq!(run.failure(EngineKind::Parakeet), None);
    assert_eq!(run.finish(), None);
}

#[test]
fn cancellation_does_not_interrupt_a_pending_region() {
    let mut run = TranscriptionRun::new(vec![region(2000, 0, 1)]);
    assert_eq!(run.advance(None, false), Step::Transcribe { index: 0, percent: 30 });
    assert_eq!(run.advance(None, true), Step::Transcribe { index: 0, percent: 30 });
    assert_eq!(run.phase(), &Phase::Awaiting);
}

#[test]
fn cancellation_before_the_first_region_keeps_nothing() {
    let mut run = TranscriptionRun::new(vec![region(2000, 0, 1)]);
    assert_eq!(run.advance(None, true), Step::Cancelled);
    assert_eq!(run.finish(), None);
}

#[test]
fn reply_that_nothing_asked_for_is_ignored() {
    let mut run = TranscriptionRun::new(vec![region(2000, 0, 1)]);
    assert_eq!(
        run.advance(Some(scored("early", 1)), false),
        Step::Transcribe { index: 0, percent: 30 }
    );
    assert_eq!(run.stats().transcribed_count, 0);
    assert_eq!(run.advance(Some(scored("due", 5)), false), Step::Finished);
    assert_eq!(run.stats(), RunStats { transcribed_count: 1, average_confidence: 5 });
    assert_eq!(run.advance(None, true), Step::Finished);
}

#[test]
fn run_hands_out_its_regions() {
    let regions = vec![region(3, 0, 1), region(4, 1, 2)];
    let run = TranscriptionRun::new(regions.clone());
    assert_eq!(run.segments(), &regions);
    assert_eq!(run.phase(), &Phase::Ready);
}
