//! What is written to the database for one import.
//!
//! The rows are laid out here; writing them is the host's work. The
//! host writes the meeting row and every transcript row inside one
//! transaction and commits it, or writes nothing.

use crate::stamp::{is_hyphenated_uuid, is_utc_timestamp, new_uuid, now_rfc3339};
use crate::text::optional_text;
use crate::transcript::TranscriptSegment;
use crate::units::Seconds;
use vstd::prelude::*;

verus! {

/// The row that stands for the imported meeting.
#[derive(Clone, Debug, PartialEq, Eq)]
pub struct MeetingRecord {
    pub id: String,
    pub title: String,
    pub created_at: String,
    pub updated_at: String,
    pub folder_path: String,
    pub transcription_language: Option<String>,
}

/// One row of transcript, tied to its meeting.
#[derive(Clone, Debug, PartialEq, Eq)]
pub struct TranscriptRow {
    pub id: String,
    pub meeting_id: String,
    pub transcript: String,
    pub timestamp: String,
    pub audio_start_time: Option<Seconds>,
    pub audio_end_time: Option<Seconds>,
    pub duration: Option<Seconds>,
}

/// Everything one transaction writes: the meeting, then its transcript
/// rows in order.
#[derive(Clone, Debug, PartialEq, Eq)]
pub struct CommitPlan {
    pub meeting: MeetingRecord,
    pub transcripts: Vec<TranscriptRow>,
}

/// The identifier of a meeting made from `uuid`.
pub open spec fn meeting_id(uuid: Seq<char>) -> Seq<char> {
    "meeting-"@ + uuid
}

/// Whether `id` is `meeting-` followed by a hyphenated UUID.
pub open spec fn is_meeting_id(id: Seq<char>) -> bool {
    exists|uuid: Seq<char>| is_hyphenated_uuid(uuid) && id == #[trigger] meeting_id(uuid)
}

/// Whether `row` stores `segment` under the meeting `meeting`.
pub open spec fn row_stores(row: TranscriptRow, segment: TranscriptSegment, meeting: Seq<char>)
    -> bool {
    &&& row.id@ == segment.id@
    &&& row.meeting_id@ == meeting
    &&& row.transcript@ == segment.text@
    &&& row.timestamp@ == segment.timestamp@
    &&& row.audio_start_time == segment.audio_start_time
    &&& row.audio_end_time == segment.audio_end_time
    &&& row.duration == segment.duration
}

/// Whether `plan` is the plan for a meeting with identifier `id`, made
/// at time `now`, that holds `segments`: a meeting row with the given
/// title, folder and language, created and updated at `now`, and one
/// transcript row per segment, in order, each naming the meeting.
pub open spec fn is_plan_for(
    plan: CommitPlan,
    id: Seq<char>,
    now: Seq<char>,
    title: Seq<char>,
    segments: Seq<TranscriptSegment>,
    folder_path: Seq<char>,
    language: Option<Seq<char>>,
) -> bool {
    &&& plan.meeting.id@ == id
    &&& plan.meeting.title@ == title
    &&& plan.meeting.created_at@ == now
    &&& plan.meeting.updated_at@ == now
    &&& plan.meeting.folder_path@ == folder_path
    &&& match language {
        Some(l) => plan.meeting.transcription_language matches Some(stored) && stored@ == l,
        None => plan.meeting.transcription_language is None,
    }
    &&& plan.transcripts@.len() == segments.len()
    &&& forall|i: int|
        0 <= i < segments.len() ==> row_stores(#[trigger] plan.transcripts@[i], segments[i], id)
}

/// Lays out the rows for a meeting with identifier `id`, made at `now`.
pub fn plan_commit(
    id: String,
    now: String,
    title: &str,
    segments: &[TranscriptSegment],
    folder_path: String,
    language: Option<&str>,
) -> (plan: CommitPlan)
    ensures
        is_plan_for(plan, id@, now@, title@, segments@, folder_path@, optional_text(language)),
{
    let mut rows: Vec<TranscriptRow> = Vec::new();
    let mut i: usize = 0;
    while i < segments.len()
        invariant
            i <= segments@.len(),
            rows@.len() == i,
            forall|k: int| 0 <= k < i ==> row_stores(#[trigger] rows@[k], segments@[k], id@),
        decreases segments@.len() - i,
    {
        let segment = &segments[i];
        rows.push(
            TranscriptRow {
                id: segment.id.clone(),
                meeting_id: id.clone(),
                transcript: segment.text.clone(),
                timestamp: segment.timestamp.clone(),
                audio_start_time: segment.audio_start_time,
                audio_end_time: segment.audio_end_time,
                duration: segment.duration,
            },
        );
        i += 1;
    }
    let transcription_language: Option<String> = match language {
        Some(l) => Some(l.to_owned()),
        None => None,
    };
    CommitPlan {
        meeting: MeetingRecord {
            id,
            title: title.to_owned(),
            created_at: now.clone(),
            updated_at: now,
            folder_path,
            transcription_language,
        },
        transcripts: rows,
    }
}

/// Lays out the rows for a new meeting that holds `segments`. The
/// meeting gets a fresh identifier, and the current time as its time of
/// creation and of last change.
///
/// Every transcript row names the meeting row of the same plan, so that
/// no row is written for a meeting that is not.
pub fn create_meeting_with_transcripts(
    title: &str,
    segments: &[TranscriptSegment],
    folder_path: String,
    language: Option<&str>,
) -> (plan: CommitPlan)
    ensures
        is_meeting_id(plan.meeting.id@),
        is_utc_timestamp(plan.meeting.created_at@),
        is_plan_for(
            plan,
            plan.meeting.id@,
            plan.meeting.created_at@,
            title@,
            segments@,
            folder_path@,
            optional_text(language),
        ),
{
    let uuid = new_uuid();
    let mut id: String = "meeting-".to_owned();
    id.append(uuid.as_str());
    assert(is_meeting_id(id@)) by {
        assert(id@ == meeting_id(uuid@));
    }
    plan_commit(id, now_rfc3339(), title, segments, folder_path, language)
}

/// One step of the transaction that writes a plan.
#[derive(Clone, Copy, Debug, PartialEq, Eq, Structural)]
pub enum Statement {
    /// Take a connection.
    Connect,
    /// Open the transaction.
    Begin,
    /// Write the meeting row.
    InsertMeeting,
    /// Write the transcript row with this index.
    InsertTranscript { index: usize },
    /// Commit the transaction.
    Commit,
}

/// What the host is to do next while it writes a plan.
#[derive(Clone, Copy, Debug, PartialEq, Eq, Structural)]
pub enum WriteOrder {
    /// Run this statement and report how it went.
    Execute(Statement),
    /// Everything is committed.
    Finished,
    /// `failed` did not go through: give the transaction up, so that
    /// nothing of it becomes visible.
    Abandon { failed: Statement },
}

/// The order that follows `last`, the statement run last with whether it
/// succeeded, when the plan holds `rows` transcript rows.
///
/// The statements come in one order: connect, begin, the meeting row,
/// the transcript rows by index, commit. The first statement that fails
/// ends the writing.
pub open spec fn order_after(last: Option<(Statement, bool)>, rows: int) -> WriteOrder {
    match last {
        None => WriteOrder::Execute(Statement::Connect),
        Some((failed, false)) => WriteOrder::Abandon { failed },
        Some((Statement::Connect, true)) => WriteOrder::Execute(Statement::Begin),
        Some((Statement::Begin, true)) => WriteOrder::Execute(Statement::InsertMeeting),
        Some((Statement::InsertMeeting, true)) => if 0 < rows {
            WriteOrder::Execute(Statement::InsertTranscript { index: 0 })
        } else {
            WriteOrder::Execute(Statement::Commit)
        },
        Some((Statement::InsertTranscript { index }, true)) => if index + 1 < rows {
            WriteOrder::Execute(Statement::InsertTranscript { index: (index + 1) as usize })
        } else {
            WriteOrder::Execute(Statement::Commit)
        },
        Some((Statement::Commit, true)) => WriteOrder::Finished,
    }
}

/// The statement at position `n` of a transaction that writes `rows`
/// transcript rows and in which nothing fails.
pub open spec fn statement_at(n: int, rows: int) -> Statement {
    if n <= 0 {
        Statement::Connect
    } else if n == 1 {
        Statement::Begin
    } else if n == 2 {
        Statement::InsertMeeting
    } else if n < rows + 3 {
        Statement::InsertTranscript { index: (n - 3) as usize }
    } else {
        Statement::Commit
    }
}

/// Says what to do next while writing a plan with `rows` transcript
/// rows, from the statement run last and whether it succeeded.
pub fn next_write(last: Option<(Statement, bool)>, rows: usize) -> (order: WriteOrder)
    ensures
        order == order_after(last, rows as int),
{
    match last {
        None => WriteOrder::Execute(Statement::Connect),
        Some((failed, false)) => WriteOrder::Abandon { failed },
        Some((Statement::Connect, true)) => WriteOrder::Execute(Statement::Begin),
        Some((Statement::Begin, true)) => WriteOrder::Execute(Statement::InsertMeeting),
        Some((Statement::InsertMeeting, true)) => if 0 < rows {
            WriteOrder::Execute(Statement::InsertTranscript { index: 0 })
        } else {
            WriteOrder::Execute(Statement::Commit)
        },
        Some((Statement::InsertTranscript { index }, true)) => if index < rows && index + 1
            < rows {
            WriteOrder::Execute(Statement::InsertTranscript { index: index + 1 })
        } else {
            WriteOrder::Execute(Statement::Commit)
        },
        Some((Statement::Commit, true)) => WriteOrder::Finished,
    }
}

/// When nothing fails, the statements run in full and in order: the
/// meeting row, then every transcript row once, by index, then the
/// commit, and after the commit nothing.
pub proof fn lemma_writes_in_order(n: int, rows: int)
    requires
        0 <= rows <= usize::MAX,
        0 <= n <= rows + 3,
    ensures
        order_after(None, rows) == WriteOrder::Execute(statement_at(0, rows)),
        order_after(Some((statement_at(n, rows), true)), rows) == if n == rows + 3 {
            WriteOrder::Finished
        } else {
            WriteOrder::Execute(statement_at(n + 1, rows))
        },
{
    if 3 <= n < rows + 3 {
        let index = (n - 3) as usize;
        assert(statement_at(n, rows) == Statement::InsertTranscript { index });
    }
}

/// Nothing is committed unless everything was written: the commit is
/// ordered only after the last row went through, and a statement that
/// fails is followed by giving the transaction up.
pub proof fn lemma_commit_comes_last(last: Option<(Statement, bool)>, rows: int)
    requires
        0 <= rows,
    ensures
        order_after(last, rows) == WriteOrder::Execute(Statement::Commit) ==> (last == Some(
            (Statement::InsertMeeting, true),
        ) && rows == 0) || (last matches Some((Statement::InsertTranscript { index }, true))
            && index + 1 >= rows),
        last matches Some((failed, false)) ==> order_after(last, rows) == (WriteOrder::Abandon {
            failed,
        }),
{
}

} // verus!
