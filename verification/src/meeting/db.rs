//! The names under which the store keeps the status of a meeting and the kind
//! of a note.

use vstd::prelude::*;
use crate::meeting::commands::now_utc;
use crate::meeting::models::{note_type_of, MeetingStatus, NoteType, UtcTime};
use crate::text::same_text;

verus! {

/// The instant that a text in the format of RFC 3339 names, as `chrono`'s
/// `DateTime::parse_from_rfc3339` reads it: its whole seconds since the Unix
/// epoch and the nanoseconds beyond them. `None` where the text names none.
pub uninterp spec fn rfc3339_instant(text: Seq<char>) -> Option<(i64, u32)>;

/// Reads an instant in the format of RFC 3339.
///
/// Trusted: calls `chrono::DateTime::parse_from_rfc3339`, moves the result to
/// UTC with `with_timezone`, and takes `timestamp` and `timestamp_subsec_nanos`
/// of it. The result depends on the text alone; the contract gives it the
/// name `rfc3339_instant` and says nothing of what it is.
#[verifier::external_body]
fn parse_rfc3339(text: &str) -> (instant: Option<(i64, u32)>)
    ensures
        instant == rfc3339_instant(text@),
{
    let parsed = chrono::DateTime::parse_from_rfc3339(text).ok()?;
    let utc = parsed.with_timezone(&chrono::Utc);
    Some((utc.timestamp(), utc.timestamp_subsec_nanos()))
}

/// The instant that a stored text names. A text that names none stands for
/// the current instant, whatever the clock says that is.
pub fn parse_datetime(s: String) -> (time: UtcTime)
    ensures
        rfc3339_instant(s@) matches Some((secs, nanos)) ==> time == (UtcTime { secs, nanos }),
{
    match parse_rfc3339(s.as_str()) {
        Some((secs, nanos)) => UtcTime { secs, nanos },
        None => now_utc(),
    }
}

/// The name of a status.
pub open spec fn status_name(status: MeetingStatus) -> Seq<char> {
    match status {
        MeetingStatus::Idle => "idle"@,
        MeetingStatus::Recording => "recording"@,
        MeetingStatus::Paused => "paused"@,
        MeetingStatus::Completed => "completed"@,
    }
}

/// The status that a name stands for. Any name that is not one of the three
/// others stands for an idle meeting.
pub open spec fn status_of(name: Seq<char>) -> MeetingStatus {
    if name == "recording"@ {
        MeetingStatus::Recording
    } else if name == "paused"@ {
        MeetingStatus::Paused
    } else if name == "completed"@ {
        MeetingStatus::Completed
    } else {
        MeetingStatus::Idle
    }
}

/// The name of a kind of note.
pub open spec fn note_type_name(note_type: NoteType) -> Seq<char> {
    match note_type {
        NoteType::KeyPoint => "key-point"@,
        NoteType::ActionItem => "action-item"@,
        NoteType::Decision => "decision"@,
        NoteType::Question => "question"@,
        NoteType::FollowUp => "follow-up"@,
        NoteType::Manual => "manual"@,
    }
}

/// The name under which a status is stored.
pub fn status_to_string(status: &MeetingStatus) -> (name: &'static str)
    ensures
        name@ == status_name(*status),
{
    match status {
        MeetingStatus::Idle => "idle",
        MeetingStatus::Recording => "recording",
        MeetingStatus::Paused => "paused",
        MeetingStatus::Completed => "completed",
    }
}

/// The status that a stored name stands for.
pub fn string_to_status(s: &str) -> (status: MeetingStatus)
    ensures
        status == status_of(s@),
{
    if same_text(s, "recording") {
        MeetingStatus::Recording
    } else if same_text(s, "paused") {
        MeetingStatus::Paused
    } else if same_text(s, "completed") {
        MeetingStatus::Completed
    } else {
        MeetingStatus::Idle
    }
}

/// The name under which a kind of note is stored.
pub fn note_type_to_string(note_type: &NoteType) -> (name: &'static str)
    ensures
        name@ == note_type_name(*note_type),
{
    match note_type {
        NoteType::KeyPoint => "key-point",
        NoteType::ActionItem => "action-item",
        NoteType::Decision => "decision",
        NoteType::Question => "question",
        NoteType::FollowUp => "follow-up",
        NoteType::Manual => "manual",
    }
}

/// A status that is stored and read back is the same status.
pub proof fn lemma_status_round_trip(status: MeetingStatus)
    ensures
        status_of(status_name(status)) == status,
{
    reveal_strlit("idle");
    reveal_strlit("recording");
    reveal_strlit("paused");
    reveal_strlit("completed");
    assert("idle"@.len() == 4);
    assert("recording"@.len() == 9);
    assert("paused"@.len() == 6);
    assert("completed"@[0] == 'c');
    assert("recording"@[0] == 'r');
}

/// A kind of note that is stored and read back is the same kind.
pub proof fn lemma_note_type_round_trip(note_type: NoteType)
    ensures
        note_type_of(note_type_name(note_type)) == note_type,
{
    reveal_strlit("key-point");
    reveal_strlit("action-item");
    reveal_strlit("decision");
    reveal_strlit("question");
    reveal_strlit("follow-up");
    reveal_strlit("manual");
    assert("key-point"@[0] == 'k');
    assert("action-item"@[0] == 'a');
    assert("decision"@[0] == 'd');
    assert("question"@[0] == 'q');
    assert("follow-up"@[0] == 'f');
    assert("manual"@[0] == 'm');
}

} // verus!
