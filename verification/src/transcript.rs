//! Transcript segments: what is stored of each accepted piece of text.

use crate::orchestrator::{transcript_view, Transcript, TranscriptView};
use crate::stamp::{is_hyphenated_uuid, is_utc_timestamp, new_uuid, now_rfc3339};
use crate::text::{trim_text, trimmed};
use crate::units::Seconds;
use vstd::prelude::*;

verus! {

/// One piece of transcript, ready to be stored. Times are relative to
/// the start of the recording.
#[derive(Clone, Debug, PartialEq, Eq)]
pub struct TranscriptSegment {
    pub id: String,
    pub text: String,
    /// When the segment was made, as an RFC 3339 time stamp.
    pub timestamp: String,
    pub audio_start_time: Option<Seconds>,
    pub audio_end_time: Option<Seconds>,
    /// The end less the start.
    pub duration: Option<Seconds>,
}

/// The identifier of a transcript segment made from `uuid`.
pub open spec fn transcript_id(uuid: Seq<char>) -> Seq<char> {
    "transcript-"@ + uuid
}

/// Whether `id` is `transcript-` followed by a hyphenated UUID.
pub open spec fn is_transcript_id(id: Seq<char>) -> bool {
    exists|uuid: Seq<char>| is_hyphenated_uuid(uuid) && id == #[trigger] transcript_id(uuid)
}

/// Whether `segment` says of `transcript` what a segment must: the text
/// trimmed, start and end in seconds, and as duration the end less the
/// start, which is below zero if the end comes first.
pub open spec fn describes(segment: TranscriptSegment, transcript: TranscriptView) -> bool {
    &&& segment.text@ == trimmed(transcript.text)
    &&& segment.audio_start_time == Some(Seconds { thousandths: transcript.start_ms as i128 })
    &&& segment.audio_end_time == Some(Seconds { thousandths: transcript.end_ms as i128 })
    &&& segment.duration == Some(
        Seconds { thousandths: (transcript.end_ms - transcript.start_ms) as i128 },
    )
}

/// The segment for `transcript`, with an identifier made from `uuid`
/// and `timestamp` as its time of creation.
pub fn transcript_segment(transcript: &Transcript, uuid: &str, timestamp: String) -> (segment:
    TranscriptSegment)
    ensures
        segment.id@ == transcript_id(uuid@),
        segment.timestamp == timestamp,
        describes(segment, transcript_view(*transcript)),
{
    let (text, start_ms, end_ms) = transcript;
    let mut id: String = "transcript-".to_owned();
    id.append(uuid);
    TranscriptSegment {
        id,
        text: trim_text(text.as_str()),
        timestamp,
        audio_start_time: Some(Seconds::from_millis(*start_ms)),
        audio_end_time: Some(Seconds::from_millis(*end_ms)),
        duration: Some(Seconds::between(*start_ms, *end_ms)),
    }
}

/// One segment per transcript, in the same order. Each gets an
/// identifier made from a random UUID and, as its time stamp, the time
/// in UTC at which it was made.
pub fn create_transcript_segments(transcripts: &[Transcript]) -> (segments: Vec<TranscriptSegment>)
    ensures
        segments@.len() == transcripts@.len(),
        forall|i: int|
            0 <= i < segments@.len() ==> describes(
                #[trigger] segments@[i],
                transcript_view(transcripts@[i]),
            )
                && is_transcript_id(segments@[i].id@) && is_utc_timestamp(segments@[i].timestamp@),
{
    let mut segments: Vec<TranscriptSegment> = Vec::new();
    let mut i: usize = 0;
    while i < transcripts.len()
        invariant
            i <= transcripts@.len(),
            segments@.len() == i,
            forall|k: int|
                0 <= k < i ==> describes(#[trigger] segments@[k], transcript_view(transcripts@[k]))
                    && is_transcript_id(segments@[k].id@) && is_utc_timestamp(
                    segments@[k].timestamp@,
                ),
        decreases transcripts@.len() - i,
    {
        let uuid = new_uuid();
        let segment = transcript_segment(&transcripts[i], uuid.as_str(), now_rfc3339());
        assert(is_transcript_id(segment.id@)) by {
            assert(segment.id@ == transcript_id(uuid@));
        }
        segments.push(segment);
        i += 1;
    }
    segments
}

} // verus!
