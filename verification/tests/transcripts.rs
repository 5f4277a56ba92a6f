use audio_import::transcript::{create_transcript_segments, transcript_segment, TranscriptSegment};
use audio_import::units::Seconds;

fn is_hyphenated_uuid(text: &str) -> bool {
    text.len() == 36
        && text.chars().enumerate().all(|(i, c)| match i {
            8 | 13 | 18 | 23 => c == '-',
            _ => c.is_ascii_digit() || ('a'..='f').contains(&c),
        })
}

/// Whether `text` is a time in UTC as RFC 3339 writes it, with a year of
/// four digits.
fn is_utc_timestamp(text: &str) -> bool {
    let bytes = text.as_bytes();
    let digits = |range: std::ops::Range<usize>| bytes[range].iter().all(u8::is_ascii_digit);
    let fraction = bytes.len().wrapping_sub(25);
    (fraction == 0 || fraction == 4 || fraction == 7 || fraction == 10)
        && digits(0..4)
        && bytes[4] == b'-'
        && digits(5..7)
        && bytes[7] == b'-'
        && digits(8..10)
        && bytes[10] == b'T'
        && digits(11..13)
        && bytes[13] == b':'
        && digits(14..16)
        && bytes[16] == b':'
        && digits(17..19)
        && (fraction == 0 || (bytes[19] == b'.' && digits(20..19 + fraction)))
        && text.ends_with("+00:00")
}

#[test]
fn segment_is_made_from_text_and_time_range() {
    let transcript: (String, u64, u64) = ("  Hello world\n".to_string(), 250, 1750);
    let segment = transcript_segment(&transcript, "0f8fad5b-d9cb-469f-a165-70867728950e", "2024-05-01T10:00:00+00:00".to_string());
    assert_eq!(
        segment,
        TranscriptSegment {
            id: "transcript-0f8fad5b-d9cb-469f-a165-70867728950e".to_string(),
            text: "Hello world".to_string(),
            timestamp: "2024-05-01T10:00:00+00:00".to_string(),
            audio_start_time: Some(Seconds { thousandths: 250 }),
            audio_end_time: Some(Seconds { thousandths: 1750 }),
            duration: Some(Seconds { thousandths: 1500 }),
        }
    );
}

#[test]
fn segment_of_a_backwards_range_lasts_less_than_no_time() {
    let transcript: (String, u64, u64) = ("x".to_string(), 10, 9);
    let segment = transcript_segment(&transcript, "u", "t".to_string());
    assert_eq!(segment.audio_start_time, Some(Seconds { thousandths: 10 }));
    assert_eq!(segment.audio_end_time, Some(Seconds { thousandths: 9 }));
    assert_eq!(segment.duration, Some(Seconds { thousandths: -1 }));
    assert_eq!(segment.duration.map(|d| d.thousandths as f64 / 1000.0), Some(-0.001));

    let far: (String, u64, u64) = ("x".to_string(), u64::MAX, 0);
    let segment = transcript_segment(&far, "u", "t".to_string());
    assert_eq!(segment.duration, Some(Seconds { thousandths: -(u64::MAX as i128) }));
    let far: (String, u64, u64) = ("x".to_string(), 0, u64::MAX);
    let segment = transcript_segment(&far, "u", "t".to_string());
    assert_eq!(segment.duration, Some(Seconds { thousandths: u64::MAX as i128 }));
}

#[test]
fn segment_of_an_empty_range_lasts_no_time() {
    let transcript: (String, u64, u64) = ("x".to_string(), 10, 10);
    let segment = transcript_segment(&transcript, "u", "t".to_string());
    assert_eq!(segment.duration, Some(Seconds { thousandths: 0 }));
}

#[test]
fn segments_come_in_the_order_of_their_transcripts() {
    let transcripts = vec![
        (" Hello world ".to_string(), 0, 1500),
        ("Second".to_string(), 1500, 4000),
        ("Third".to_string(), 4100, 4200),
    ];
    let segments = create_transcript_segments(&transcripts);

    assert_eq!(segments.len(), 3);
    let texts: Vec<&str> = segments.iter().map(|s| s.text.as_str()).collect();
    assert_eq!(texts, vec!["Hello world", "Second", "Third"]);
    assert_eq!(segments[1].audio_start_time, Some(Seconds { thousandths: 1500 }));
    assert_eq!(segments[1].audio_end_time, Some(Seconds { thousandths: 4000 }));
    assert_eq!(segments[1].duration, Some(Seconds { thousandths: 2500 }));
    assert_eq!(segments[0].duration.map(|d| d.thousandths as f64 / 1000.0), Some(1.5));
}

#[test]
fn segments_get_fresh_identifiers_and_time_stamps() {
    let transcripts = vec![
        ("a".to_string(), 0, 1),
        ("b".to_string(), 1, 2),
    ];
    let segments = create_transcript_segments(&transcripts);

    for segment in &segments {
        assert!(segment.id.starts_with("transcript-"));
        assert_eq!(segment.id.len(), 47);
        assert!(is_hyphenated_uuid(&segment.id["transcript-".len()..]));
        assert_eq!(segment.id.as_bytes()["transcript-".len() + 14], b'4');
        assert!(is_utc_timestamp(&segment.timestamp), "{}", segment.timestamp);
        assert!(segment.timestamp.as_str() > "2024-01-01T00:00:00+00:00");
    }
    assert_ne!(segments[0].id, segments[1].id);
}
