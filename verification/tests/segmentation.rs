use audio_import::error::SegmentationError;
use audio_import::segment::{is_chronological, SpeechSegment};
use audio_import::segmenter::{
    detection_poll, find_regions, segment_speech, FrameVerdict, Region, RegionScan,
    FRAMES_PER_POLL, SAMPLES_PER_MS,
};

const FRAME: usize = 480;

fn speech(confidence: u32) -> FrameVerdict {
    FrameVerdict { speech: true, confidence }
}

fn silence() -> FrameVerdict {
    FrameVerdict { speech: false, confidence: 20_000 }
}

fn recording(samples: usize) -> Vec<f32> {
    (0..samples).map(|i| i as f32).collect()
}

/// Speech at the given frames, silence everywhere else.
fn verdicts(frames: usize, speech_at: &[usize]) -> Vec<FrameVerdict> {
    (0..frames)
        .map(|i| if speech_at.contains(&i) { speech(500_000) } else { silence() })
        .collect()
}

#[test]
fn short_pause_stays_inside_its_region() {
    let mut frames = verdicts(30, &[]);
    frames[1] = speech(900_000);
    frames[2] = speech(700_000);
    frames[4] = speech(800_000);
    frames[25] = speech(1_000_000);
    let pcm = recording(30 * FRAME);

    let segments = segment_speech(&pcm, &frames, FRAME, 400).unwrap();

    assert_eq!(
        segments,
        vec![
            SpeechSegment {
                samples: pcm[480..2400].to_vec(),
                start_timestamp_ms: 30,
                end_timestamp_ms: 150,
                confidence: 800_000,
            },
            SpeechSegment {
                samples: pcm[12_000..12_480].to_vec(),
                start_timestamp_ms: 750,
                end_timestamp_ms: 780,
                confidence: 1_000_000,
            },
        ]
    );
    assert!(is_chronological(&segments));
}

#[test]
fn pause_of_the_redemption_time_is_still_bridged() {
    assert_eq!(SAMPLES_PER_MS, 16);
    // 400 ms hold 13 whole frames of 30 ms.
    let bridged = verdicts(20, &[2, 16]);
    assert_eq!(
        find_regions(&bridged, 13),
        vec![Region { first: 2, last: 16, confidence: 500_000 }]
    );
    let pcm = recording(20 * FRAME);
    let segments = segment_speech(&pcm, &bridged, FRAME, 400).unwrap();
    assert_eq!(segments.len(), 1);
    assert_eq!(segments[0].start_timestamp_ms, 60);
    assert_eq!(segments[0].end_timestamp_ms, 510);

    let parted = verdicts(20, &[2, 17]);
    assert_eq!(
        find_regions(&parted, 13),
        vec![
            Region { first: 2, last: 2, confidence: 500_000 },
            Region { first: 17, last: 17, confidence: 500_000 },
        ]
    );
    assert_eq!(segment_speech(&pcm, &parted, FRAME, 400).unwrap().len(), 2);
}

#[test]
fn without_redemption_every_pause_ends_a_region() {
    let frames = verdicts(7, &[0, 1, 3, 6]);
    assert_eq!(
        find_regions(&frames, 0),
        vec![
            Region { first: 0, last: 1, confidence: 500_000 },
            Region { first: 3, last: 3, confidence: 500_000 },
            Region { first: 6, last: 6, confidence: 500_000 },
        ]
    );
}

#[test]
fn recording_without_speech_has_no_segments() {
    let pcm = recording(10 * FRAME);
    assert_eq!(segment_speech(&pcm, &verdicts(10, &[]), FRAME, 400), Ok(vec![]));
    assert_eq!(segment_speech(&Vec::<f32>::new(), &vec![], FRAME, 400), Ok(vec![]));
    assert!(find_regions(&vec![], 13).is_empty());
}

#[test]
fn region_confidence_is_the_average_over_its_speech_frames() {
    let frames = vec![
        speech(1),
        silence(),
        speech(2),
        FrameVerdict { speech: false, confidence: 999_999 },
        speech(4),
    ];
    assert_eq!(find_regions(&frames, 5), vec![Region { first: 0, last: 4, confidence: 2 }]);
    assert_eq!(
        find_regions(&vec![speech(u32::MAX), speech(u32::MAX)], 0),
        vec![Region { first: 0, last: 1, confidence: u32::MAX }]
    );
}

#[test]
fn last_frame_may_be_short() {
    let pcm = recording(1000);
    let frames = verdicts(3, &[0, 1, 2]);
    let segments = segment_speech(&pcm, &frames, FRAME, 400).unwrap();
    assert_eq!(
        segments,
        vec![SpeechSegment {
            samples: pcm.clone(),
            start_timestamp_ms: 0,
            end_timestamp_ms: 62,
            confidence: 500_000,
        }]
    );
}

#[test]
fn silence_at_both_ends_is_left_out() {
    let pcm = recording(6 * 160);
    let frames = verdicts(6, &[2, 3]);
    let segments = segment_speech(&pcm, &frames, 160, 400).unwrap();
    assert_eq!(segments.len(), 1);
    assert_eq!(segments[0].samples, pcm[320..640].to_vec());
    assert_eq!(segments[0].start_timestamp_ms, 20);
    assert_eq!(segments[0].end_timestamp_ms, 40);
}

#[test]
fn frames_must_hold_samples() {
    assert_eq!(
        segment_speech(&recording(10), &verdicts(1, &[0]), 0, 400),
        Err(SegmentationError::EmptyFrame)
    );
    assert_eq!(RegionScan::new(400, 0).err(), Some(SegmentationError::EmptyFrame));
}

#[test]
fn there_must_be_one_verdict_for_every_frame() {
    let pcm = recording(1000);
    assert_eq!(
        segment_speech(&pcm, &verdicts(2, &[0]), FRAME, 400),
        Err(SegmentationError::FrameCount { expected: 3, found: 2 })
    );
    assert_eq!(
        segment_speech(&pcm, &verdicts(4, &[0]), FRAME, 400),
        Err(SegmentationError::FrameCount { expected: 3, found: 4 })
    );
    assert_eq!(
        segment_speech(&recording(960), &verdicts(3, &[0]), FRAME, 400),
        Err(SegmentationError::FrameCount { expected: 2, found: 3 })
    );
}

#[test]
fn scan_counts_regions_as_it_goes() {
    let mut scan = RegionScan::new(60, 480).ok().unwrap();
    assert_eq!(scan.found(), 0);
    let mut counts = Vec::new();
    for verdict in verdicts(12, &[1, 2, 5, 9, 10]) {
        scan.push(verdict);
        counts.push(scan.found());
    }
    // 60 ms hold two frames of 30 ms: the pause after frame 2 is bridged,
    // the one after frame 5 is not.
    assert_eq!(counts, vec![0, 1, 1, 1, 1, 1, 1, 1, 1, 2, 2, 2]);

    let pcm = recording(12 * 480);
    let segments = scan.into_segments(&pcm).unwrap();
    assert_eq!(segments.len(), 2);
    assert_eq!(segments[0].samples, pcm[480..6 * 480].to_vec());
    assert_eq!(segments[1].samples, pcm[9 * 480..11 * 480].to_vec());
    assert!(is_chronological(&segments));
}

#[test]
fn scan_hands_out_its_regions() {
    let mut scan = RegionScan::new(0, 100).ok().unwrap();
    for verdict in [speech(10), speech(30), silence(), speech(7)] {
        scan.push(verdict);
    }
    assert_eq!(
        scan.finish(),
        vec![
            Region { first: 0, last: 1, confidence: 20 },
            Region { first: 3, last: 3, confidence: 7 },
        ]
    );
}

#[test]
fn scan_of_another_recording_is_turned_down() {
    let mut scan = RegionScan::new(400, 480).ok().unwrap();
    scan.push(speech(1));
    assert_eq!(
        scan.into_segments(&recording(4800)),
        Err(SegmentationError::FrameCount { expected: 10, found: 1 })
    );
}

#[test]
fn segments_of_any_verdicts_are_in_order() {
    let mut state: u32 = 12345;
    for round in 0..50 {
        let frames: Vec<FrameVerdict> = (0..200)
            .map(|_| {
                state = state.wrapping_mul(1_103_515_245).wrapping_add(12_345);
                FrameVerdict { speech: (state >> 16) % 4 == 0, confidence: state >> 12 }
            })
            .collect();
        let pcm = recording(200 * 32 - round % 32);
        let segments = segment_speech(&pcm, &frames, 32, round as u32).unwrap();
        assert!(is_chronological(&segments));
        let speech_frames = frames.iter().filter(|f| f.speech).count();
        assert_eq!(segments.is_empty(), speech_frames == 0);
        for segment in &segments {
            assert!(!segment.samples.is_empty());
        }
    }
}

#[test]
fn progress_is_due_every_hundred_frames() {
    assert_eq!(FRAMES_PER_POLL, 100);
    assert_eq!(detection_poll(0, 1000), Some(0));
    assert_eq!(detection_poll(1, 1000), None);
    assert_eq!(detection_poll(99, 1000), None);
    assert_eq!(detection_poll(100, 1000), Some(10));
    assert_eq!(detection_poll(300, 900), Some(33));
    assert_eq!(detection_poll(900, 900), Some(100));
    assert_eq!(detection_poll(1000, 900), Some(100));
    assert_eq!(detection_poll(0, 0), Some(100));
    assert_eq!(detection_poll(usize::MAX / 100 * 100, usize::MAX), Some(99));
}

#[test]
fn scan_knows_how_many_frames_a_recording_has() {
    let scan = RegionScan::new(400, 480).ok().unwrap();
    assert_eq!(scan.frames_expected(0), 0);
    assert_eq!(scan.frames_expected(1), 1);
    assert_eq!(scan.frames_expected(480), 1);
    assert_eq!(scan.frames_expected(481), 2);
    assert_eq!(scan.frames_expected(4800), 10);
    let single = RegionScan::new(400, 1).ok().unwrap();
    assert_eq!(single.frames_expected(usize::MAX), usize::MAX);
}
