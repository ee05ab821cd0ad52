//! What the meeting commands compute: new and updated records, and the export
//! of a meeting as Markdown.

use std::fmt::Write;
use vstd::prelude::*;
use crate::meeting::models::{
    note_type_of, note_views, participant_views, transcript_views, AudioSource, AudioSourceView,
    Meeting, MeetingStatus, MeetingView, Note, NoteType, NoteView, Participant, ParticipantView,
    TranscriptEntry, TranscriptEntryView, UtcTime,
};
use crate::text::{
    decimal, decimal_two_wide, joined, opt_chars, push_decimal, push_decimal_two_wide,
    replace_char, replaced, trunc_div, trunc_rem,
};

verus! {

/// The text of `chrono`'s `DateTime::<Utc>::format` for the instant that
/// `DateTime::from_timestamp(secs, nanos)` gives, under the given pattern;
/// `None` where there is no such instant or the pattern cannot be written out.
pub uninterp spec fn utc_text(secs: i64, nanos: u32, pattern: Seq<char>) -> Option<Seq<char>>;

/// The whole hours and the whole minutes from one instant to another, as
/// `chrono`'s `signed_duration_since`, `num_hours` and `num_minutes` give
/// them; `None` where `DateTime::from_timestamp` has no instant for one of the two.
pub uninterp spec fn elapsed_hours_minutes(
    start_secs: i64,
    start_nanos: u32,
    end_secs: i64,
    end_nanos: u32,
) -> Option<(i64, i64)>;

/// Writes an instant of UTC out under a pattern.
///
/// Trusted: calls `chrono::DateTime::from_timestamp` and, on the instant it
/// gives, `format` with the pattern. The text depends on the instant and the
/// pattern alone; the contract gives it the name `utc_text` and says nothing
/// of what it holds.
#[verifier::external_body]
fn format_utc(secs: i64, nanos: u32, pattern: &str) -> (text: Option<String>)
    ensures
        opt_chars(text) == utc_text(secs, nanos, pattern@),
{
    let instant = chrono::DateTime::from_timestamp(secs, nanos)?;
    let mut text = String::new();
    write!(text, "{}", instant.format(pattern)).ok()?;
    Some(text)
}

/// The whole hours and whole minutes from one instant to another.
///
/// Trusted: calls `chrono::DateTime::from_timestamp` for both instants, then
/// `signed_duration_since`, `num_hours` and `num_minutes`. The two numbers
/// depend on the two instants alone; the contract gives them the name
/// `elapsed_hours_minutes` and says nothing of what they are.
#[verifier::external_body]
fn elapsed_between(start_secs: i64, start_nanos: u32, end_secs: i64, end_nanos: u32) -> (elapsed:
    Option<(i64, i64)>)
    ensures
        elapsed == elapsed_hours_minutes(start_secs, start_nanos, end_secs, end_nanos),
{
    let start = chrono::DateTime::from_timestamp(start_secs, start_nanos)?;
    let end = chrono::DateTime::from_timestamp(end_secs, end_nanos)?;
    let duration = end.signed_duration_since(start);
    Some((duration.num_hours(), duration.num_minutes()))
}

/// The current instant of UTC.
///
/// Trusted: calls `chrono::Utc::now()`, then `timestamp` and
/// `timestamp_subsec_nanos`. The clock decides; nothing is claimed.
#[verifier::external_body]
pub(crate) fn now_utc() -> (now: UtcTime) {
    let now = chrono::Utc::now();
    UtcTime { secs: now.timestamp(), nanos: now.timestamp_subsec_nanos() }
}

/// A new identifier.
///
/// Trusted: calls `uuid::Uuid::new_v4()` and writes the result out with
/// `to_string`. The identifier is random; nothing is claimed.
#[verifier::external_body]
fn new_id() -> (id: String) {
    uuid::Uuid::new_v4().to_string()
}

/// The current local date and time, written out under a pattern; `None`
/// where the pattern cannot be written out.
///
/// Trusted: calls `chrono::Local::now()` and, on the result, `format` with the
/// pattern. The clock and the time zone of the machine decide; nothing is
/// claimed.
#[verifier::external_body]
fn format_local_now(pattern: &str) -> (text: Option<String>) {
    let mut text = String::new();
    write!(text, "{}", chrono::Local::now().format(pattern)).ok()?;
    Some(text)
}

/// The title of a meeting: the one given, or, where none is given, `Meeting`
/// and the date and time at which it starts.
pub open spec fn title_or_default(title: Seq<char>, stamp: Seq<char>) -> Seq<char> {
    if title.len() == 0 {
        "Meeting "@ + stamp
    } else {
        title
    }
}

/// The title of a meeting: the one given, or, where none is given, `Meeting`
/// and `stamp`.
pub fn meeting_title(title: String, stamp: &str) -> (chosen: String)
    ensures
        chosen@ == title_or_default(title@, stamp@),
{
    if title.as_str().unicode_len() == 0 {
        let mut chosen = String::from_str("Meeting ");
        chosen.append(stamp);
        chosen
    } else {
        title
    }
}

/// A meeting that has just started: it is recording, in English, without
/// participants, and has not ended.
pub open spec fn recording_meeting(
    id: Seq<char>,
    title: Seq<char>,
    start_time: UtcTime,
    created_at: UtcTime,
    updated_at: UtcTime,
) -> MeetingView {
    MeetingView {
        id,
        title,
        start_time,
        end_time: None,
        participants: Seq::empty(),
        language: "en"@,
        translation_target: None,
        status: MeetingStatus::Recording,
        audio_path: None,
        created_at,
        updated_at,
    }
}

/// A meeting that has just started.
pub fn new_meeting(
    id: String,
    title: String,
    start_time: UtcTime,
    created_at: UtcTime,
    updated_at: UtcTime,
) -> (meeting: Meeting)
    ensures
        meeting@ == recording_meeting(id@, title@, start_time, created_at, updated_at),
{
    let meeting = Meeting {
        id,
        title,
        start_time,
        end_time: None,
        participants: Vec::new(),
        language: String::from_str("en"),
        translation_target: None,
        status: MeetingStatus::Recording,
        audio_path: None,
        created_at,
        updated_at,
    };
    assert(participant_views(meeting.participants@) =~= Seq::<ParticipantView>::empty());
    meeting
}

/// Starts a meeting now: a new identifier, the title given or the default
/// one, and the times that the clock gives.
pub fn start_meeting(title: String) -> (meeting: Meeting)
    ensures
        exists|id: Seq<char>, stamp: Seq<char>, start: UtcTime, created: UtcTime, updated: UtcTime|
            meeting@ == recording_meeting(
                id,
                title_or_default(title@, stamp),
                start,
                created,
                updated,
            ),
{
    let id = new_id();
    let stamp = match format_local_now("%Y-%m-%d %H:%M") {
        Some(stamp) => stamp,
        None => String::new(),
    };
    let ghost given = title@;
    let chosen = meeting_title(title, stamp.as_str());
    let start = now_utc();
    let created = now_utc();
    let updated = now_utc();
    let ghost id_chars = id@;
    let meeting = new_meeting(id, chosen, start, created, updated);
    assert(meeting@ == recording_meeting(
        id_chars,
        title_or_default(given, stamp@),
        start,
        created,
        updated,
    ));
    meeting
}

/// A meeting with another status, changed at `updated_at`.
pub open spec fn with_status(
    meeting: MeetingView,
    status: MeetingStatus,
    updated_at: UtcTime,
) -> MeetingView {
    MeetingView { status, updated_at, ..meeting }
}

/// A meeting that ended at `end_time`.
pub open spec fn ended(meeting: MeetingView, end_time: UtcTime, updated_at: UtcTime) -> MeetingView {
    MeetingView {
        end_time: Some(end_time),
        ..with_status(meeting, MeetingStatus::Completed, updated_at)
    }
}

/// Gives a meeting another status.
pub fn meeting_with_status(meeting: Meeting, status: MeetingStatus, updated_at: UtcTime) -> (changed:
    Meeting)
    ensures
        changed@ == with_status(meeting@, status, updated_at),
{
    let mut changed = meeting;
    changed.status = status;
    changed.updated_at = updated_at;
    changed
}

/// Ends a meeting at `end_time`.
pub fn meeting_ended(meeting: Meeting, end_time: UtcTime, updated_at: UtcTime) -> (changed: Meeting)
    ensures
        changed@ == ended(meeting@, end_time, updated_at),
{
    let mut changed = meeting_with_status(meeting, MeetingStatus::Completed, updated_at);
    changed.end_time = Some(end_time);
    changed
}

/// Ends a meeting now, whatever the clock says that is.
pub fn end_meeting(meeting: Meeting) -> (changed: Meeting)
    ensures
        exists|end_time: UtcTime, updated_at: UtcTime|
            changed@ == ended(meeting@, end_time, updated_at),
{
    let end_time = now_utc();
    let updated_at = now_utc();
    let ghost before = meeting@;
    let changed = meeting_ended(meeting, end_time, updated_at);
    assert(changed@ == ended(before, end_time, updated_at));
    changed
}

/// Pauses a meeting now, whatever the clock says that is.
pub fn pause_meeting(meeting: Meeting) -> (changed: Meeting)
    ensures
        exists|updated_at: UtcTime|
            changed@ == with_status(meeting@, MeetingStatus::Paused, updated_at),
{
    let updated_at = now_utc();
    let ghost before = meeting@;
    let changed = meeting_with_status(meeting, MeetingStatus::Paused, updated_at);
    assert(changed@ == with_status(before, MeetingStatus::Paused, updated_at));
    changed
}

/// Resumes a meeting now, whatever the clock says that is.
pub fn resume_meeting(meeting: Meeting) -> (changed: Meeting)
    ensures
        exists|updated_at: UtcTime|
            changed@ == with_status(meeting@, MeetingStatus::Recording, updated_at),
{
    let updated_at = now_utc();
    let ghost before = meeting@;
    let changed = meeting_with_status(meeting, MeetingStatus::Recording, updated_at);
    assert(changed@ == with_status(before, MeetingStatus::Recording, updated_at));
    changed
}

/// A note that has just been taken: of the kind that `note_type` names,
/// without sources, assignee or deadline, and not completed.
pub open spec fn fresh_note(
    id: Seq<char>,
    meeting_id: Seq<char>,
    note_type: Seq<char>,
    content: Seq<char>,
    timestamp: int,
    created_at: UtcTime,
    updated_at: UtcTime,
) -> NoteView {
    NoteView {
        id,
        meeting_id,
        note_type: note_type_of(note_type),
        content,
        timestamp,
        source_refs: Seq::empty(),
        assignee: None,
        deadline: None,
        completed: false,
        created_at,
        updated_at,
    }
}

/// A note that has just been taken.
pub fn new_note(
    id: String,
    meeting_id: String,
    note_type: &str,
    content: String,
    timestamp: i64,
    created_at: UtcTime,
    updated_at: UtcTime,
) -> (note: Note)
    ensures
        note@ == fresh_note(
            id@,
            meeting_id@,
            note_type@,
            content@,
            timestamp as int,
            created_at,
            updated_at,
        ),
{
    let note = Note {
        id,
        meeting_id,
        note_type: NoteType::from_str(note_type),
        content,
        timestamp,
        source_refs: Vec::new(),
        assignee: None,
        deadline: None,
        completed: false,
        created_at,
        updated_at,
    };
    assert(note@.source_refs =~= Seq::<Seq<char>>::empty());
    note
}

/// Takes a note now: a new identifier and the times that the clock gives.
pub fn add_note(meeting_id: String, note_type: String, content: String, timestamp: i64) -> (note:
    Note)
    ensures
        exists|id: Seq<char>, created: UtcTime, updated: UtcTime|
            note@ == fresh_note(
                id,
                meeting_id@,
                note_type@,
                content@,
                timestamp as int,
                created,
                updated,
            ),
{
    let id = new_id();
    let created = now_utc();
    let updated = now_utc();
    let ghost id_chars = id@;
    let ghost meeting_chars = meeting_id@;
    let ghost content_chars = content@;
    let note = new_note(id, meeting_id, note_type.as_str(), content, timestamp, created, updated);
    assert(note@ == fresh_note(
        id_chars,
        meeting_chars,
        note_type@,
        content_chars,
        timestamp as int,
        created,
        updated,
    ));
    note
}

/// The audio sources as mathematical values.
pub open spec fn audio_source_views(sources: Seq<AudioSource>) -> Seq<AudioSourceView> {
    sources.map_values(|s: AudioSource| s@)
}

/// The audio sources that the library knows of: the default microphone alone.
pub fn get_audio_sources() -> (sources: Vec<AudioSource>)
    ensures
        audio_source_views(sources@) == seq![
            AudioSourceView {
                id: "default-mic"@,
                name: "Default Microphone"@,
                source_type: "microphone"@,
                is_default: true,
            },
        ],
{
    let mut sources: Vec<AudioSource> = Vec::new();
    sources.push(
        AudioSource {
            id: String::from_str("default-mic"),
            name: String::from_str("Default Microphone"),
            source_type: String::from_str("microphone"),
            is_default: true,
        },
    );
    assert(audio_source_views(sources@) =~= seq![
        AudioSourceView {
            id: "default-mic"@,
            name: "Default Microphone"@,
            source_type: "microphone"@,
            is_default: true,
        },
    ]);
    sources
}

/// A position in a meeting, given in milliseconds from its start, as
/// `MM:SS`, or as `HH:MM:SS` from the first hour on.
pub open spec fn timestamp_text(ms: int) -> Seq<char> {
    let total_secs = trunc_div(ms, 1000);
    let hours = trunc_div(total_secs, 3600);
    let mins = trunc_div(trunc_rem(total_secs, 3600), 60);
    let secs = trunc_rem(total_secs, 60);
    if hours > 0 {
        decimal_two_wide(hours) + ":"@ + decimal_two_wide(mins) + ":"@ + decimal_two_wide(secs)
    } else {
        decimal_two_wide(mins) + ":"@ + decimal_two_wide(secs)
    }
}

/// Writes a position in a meeting at the end of `out`.
fn push_timestamp(out: &mut String, ms: i64)
    ensures
        final(out)@ == old(out)@ + timestamp_text(ms as int),
{
    let total_secs = ms / 1000;
    let hours = total_secs / 3600;
    let within_hour = total_secs % 3600;
    let mins = within_hour / 60;
    let secs = total_secs % 60;
    assert(total_secs == trunc_div(ms as int, 1000));
    assert(hours == trunc_div(total_secs as int, 3600));
    assert(within_hour == trunc_rem(total_secs as int, 3600));
    assert(mins == trunc_div(trunc_rem(total_secs as int, 3600), 60));
    assert(secs == trunc_rem(total_secs as int, 60));
    if hours > 0 {
        push_decimal_two_wide(out, hours);
        out.append(":");
    }
    push_decimal_two_wide(out, mins);
    out.append(":");
    push_decimal_two_wide(out, secs);
    assert(out@ =~= old(out)@ + timestamp_text(ms as int));
}

/// A position in a meeting, given in milliseconds from its start, as
/// `MM:SS`, or as `HH:MM:SS` from the first hour on.
pub fn format_timestamp(ms: i64) -> (text: String)
    ensures
        text@ == timestamp_text(ms as int),
{
    let mut text = String::new();
    push_timestamp(&mut text, ms);
    assert(text@ =~= timestamp_text(ms as int));
    text
}

/// The texts and numbers that the calendar supplies to an export.
#[derive(Debug, Clone)]
pub struct ExportLabels {
    /// The day on which the meeting started.
    pub date: String,
    /// The time of day at which the meeting started.
    pub start_time: String,
    /// When the meeting ended and how long it took, for a meeting that has ended.
    pub end: Option<MeetingEnd>,
    /// When the export is made.
    pub exported_on: String,
}

/// When a meeting ended, and the whole hours and whole minutes that it took.
#[derive(Debug, Clone)]
pub struct MeetingEnd {
    pub time: String,
    pub hours: i64,
    pub minutes: i64,
}

/// The end of a meeting as a mathematical value.
pub struct MeetingEndView {
    pub time: Seq<char>,
    pub hours: int,
    pub minutes: int,
}

impl View for MeetingEnd {
    type V = MeetingEndView;

    open spec fn view(&self) -> MeetingEndView {
        MeetingEndView { time: self.time@, hours: self.hours as int, minutes: self.minutes as int }
    }
}

/// The labels of an export as a mathematical value.
pub struct ExportLabelsView {
    pub date: Seq<char>,
    pub start_time: Seq<char>,
    pub end: Option<MeetingEndView>,
    pub exported_on: Seq<char>,
}

impl View for ExportLabels {
    type V = ExportLabelsView;

    open spec fn view(&self) -> ExportLabelsView {
        ExportLabelsView {
            date: self.date@,
            start_time: self.start_time@,
            end: match self.end {
                Some(end) => Some(end@),
                None => None,
            },
            exported_on: self.exported_on@,
        }
    }
}

/// The labels of an optional value.
pub open spec fn opt_labels_view(labels: Option<ExportLabels>) -> Option<ExportLabelsView> {
    match labels {
        Some(labels) => Some(labels@),
        None => None,
    }
}

/// The end of a meeting that started at `start` and ended at `end`, as the
/// calendar writes it; `None` where the calendar has no such instants.
pub open spec fn meeting_end_of(start: UtcTime, end: UtcTime) -> Option<MeetingEndView> {
    let time = utc_text(end.secs, end.nanos, "%H:%M"@);
    let elapsed = elapsed_hours_minutes(start.secs, start.nanos, end.secs, end.nanos);
    match (time, elapsed) {
        (Some(time), Some((hours, minutes))) => Some(
            MeetingEndView { time, hours: hours as int, minutes: minutes as int },
        ),
        _ => None,
    }
}

/// The labels for an export of `meeting` made at `now`, as the calendar writes
/// them; `None` where the calendar has no instant for one of the times.
pub open spec fn labels_of(meeting: MeetingView, now: UtcTime) -> Option<ExportLabelsView> {
    let date = utc_text(meeting.start_time.secs, meeting.start_time.nanos, "%B %d, %Y"@);
    let start_time = utc_text(meeting.start_time.secs, meeting.start_time.nanos, "%H:%M"@);
    let exported_on = utc_text(now.secs, now.nanos, "%Y-%m-%d %H:%M UTC"@);
    let end_known = meeting.end_time matches Some(end) ==> meeting_end_of(meeting.start_time, end)
        is Some;
    if date is Some && start_time is Some && exported_on is Some && end_known {
        Some(
            ExportLabelsView {
                date: date->0,
                start_time: start_time->0,
                end: match meeting.end_time {
                    Some(end) => meeting_end_of(meeting.start_time, end),
                    None => None,
                },
                exported_on: exported_on->0,
            },
        )
    } else {
        None
    }
}

/// The labels for an export of `meeting` made at `now`.
pub fn export_labels(meeting: &Meeting, now: UtcTime) -> (labels: Option<ExportLabels>)
    ensures
        opt_labels_view(labels) == labels_of(meeting@, now),
{
    let start = meeting.start_time;
    let date = format_utc(start.secs, start.nanos, "%B %d, %Y");
    let start_time = format_utc(start.secs, start.nanos, "%H:%M");
    let exported_on = format_utc(now.secs, now.nanos, "%Y-%m-%d %H:%M UTC");
    let end = match meeting.end_time {
        None => None,
        Some(end) => {
            let time = format_utc(end.secs, end.nanos, "%H:%M");
            let elapsed = elapsed_between(start.secs, start.nanos, end.secs, end.nanos);
            match (time, elapsed) {
                (Some(time), Some((hours, minutes))) => Some(MeetingEnd { time, hours, minutes }),
                _ => {
                    return None;
                },
            }
        },
    };
    match (date, start_time, exported_on) {
        (Some(date), Some(start_time), Some(exported_on)) => Some(
            ExportLabels { date, start_time, end, exported_on },
        ),
        _ => None,
    }
}

/// The heading of an export: the title of the meeting.
pub open spec fn title_section(title: Seq<char>) -> Seq<char> {
    "# "@ + title + "\n\n"@
}

/// The line that says how long a meeting took. The minutes are those beyond
/// the whole hours; the hours are left out where there is none.
pub open spec fn duration_line(hours: int, minutes: int) -> Seq<char> {
    if hours > 0 {
        "- **Duration**: "@ + decimal(hours) + "h "@ + decimal(trunc_rem(minutes, 60)) + "m\n"@
    } else {
        "- **Duration**: "@ + decimal(trunc_rem(minutes, 60)) + "m\n"@
    }
}

/// The lines on the end of a meeting; none for a meeting that has not ended.
pub open spec fn end_lines(end: Option<MeetingEndView>) -> Seq<char> {
    match end {
        Some(end) => "- **End Time**: "@ + end.time + "\n"@ + duration_line(
            end.hours,
            end.minutes,
        ),
        None => Seq::empty(),
    }
}

/// The names of the participants.
pub open spec fn participant_names(participants: Seq<ParticipantView>) -> Seq<Seq<char>> {
    participants.map_values(|p: ParticipantView| p.name)
}

/// The participants of a meeting in one line.
pub open spec fn participants_text(participants: Seq<ParticipantView>) -> Seq<char> {
    if participants.len() == 0 {
        "N/A"@
    } else {
        joined(participant_names(participants), ", "@)
    }
}

/// The section of an export on the meeting itself.
pub open spec fn information_section(meeting: MeetingView, labels: ExportLabelsView) -> Seq<char> {
    "## Meeting Information\n\n"@ + "- **Date**: "@ + labels.date + "\n"@ + "- **Start Time**: "@
        + labels.start_time + "\n"@ + end_lines(labels.end) + "- **Participants**: "@
        + participants_text(meeting.participants) + "\n"@ + "\n---\n\n"@
}

/// The section of an export that holds the summary, where one is given.
pub open spec fn summary_section(summary: Option<Seq<char>>) -> Seq<char> {
    match summary {
        Some(summary) => "## Summary\n\n"@ + summary + "\n\n---\n\n"@,
        None => Seq::empty(),
    }
}

/// The group under which an export lists a note.
#[derive(Debug, Clone, Copy, PartialEq, Eq, Structural)]
pub enum NoteGroup {
    ActionItems,
    KeyPoints,
    Decisions,
    Other,
}

/// The group of a kind of note.
pub open spec fn group_of(note_type: NoteType) -> NoteGroup {
    match note_type {
        NoteType::ActionItem => NoteGroup::ActionItems,
        NoteType::KeyPoint => NoteGroup::KeyPoints,
        NoteType::Decision => NoteGroup::Decisions,
        _ => NoteGroup::Other,
    }
}

/// The notes of a group.
pub open spec fn in_group(group: NoteGroup) -> spec_fn(NoteView) -> bool {
    |n: NoteView| group_of(n.note_type) == group
}

/// The heading of a group of notes.
pub open spec fn group_heading(group: NoteGroup) -> Seq<char> {
    match group {
        NoteGroup::ActionItems => "### Action Items\n\n"@,
        NoteGroup::KeyPoints => "### Key Points\n\n"@,
        NoteGroup::Decisions => "### Decisions\n\n"@,
        NoteGroup::Other => "### Other Notes\n\n"@,
    }
}

/// What follows the content of a note: for an action item its assignee,
/// where it has one.
pub open spec fn assignee_text(note: NoteView) -> Seq<char> {
    match note.assignee {
        Some(assignee) if note.note_type == NoteType::ActionItem => " *("@ + assignee + ")*"@,
        _ => Seq::empty(),
    }
}

/// The line of a note. An action item has a checkbox before its content and
/// its assignee behind it.
pub open spec fn note_line(note: NoteView) -> Seq<char> {
    if note.note_type == NoteType::ActionItem {
        "- "@ + (if note.completed {
            "[x]"@
        } else {
            "[ ]"@
        }) + " "@ + note.content + assignee_text(note) + "\n"@
    } else {
        "- "@ + note.content + "\n"@
    }
}

/// The lines of some notes, one after the other.
pub open spec fn note_lines(notes: Seq<NoteView>) -> Seq<char>
    decreases notes.len(),
{
    if notes.len() == 0 {
        Seq::empty()
    } else {
        note_lines(notes.drop_last()) + note_line(notes.last())
    }
}

/// The part of an export on one group of notes: nothing where no note
/// belongs to the group.
pub open spec fn group_section(notes: Seq<NoteView>, group: NoteGroup) -> Seq<char> {
    let members = notes.filter(in_group(group));
    if members.len() == 0 {
        Seq::empty()
    } else {
        group_heading(group) + note_lines(members) + "\n"@
    }
}

/// The section of an export on the notes: nothing where there is no note.
pub open spec fn notes_section(notes: Seq<NoteView>) -> Seq<char> {
    if notes.len() == 0 {
        Seq::empty()
    } else {
        "## Notes\n\n"@ + group_section(notes, NoteGroup::ActionItems) + group_section(
            notes,
            NoteGroup::KeyPoints,
        ) + group_section(notes, NoteGroup::Decisions) + group_section(notes, NoteGroup::Other)
            + "---\n\n"@
    }
}

/// The paragraph of one utterance.
pub open spec fn transcript_line(entry: TranscriptEntryView) -> Seq<char> {
    "**["@ + timestamp_text(entry.timestamp) + "] "@ + entry.speaker_name + "**: "@ + entry.text
        + "\n\n"@
}

/// The paragraphs of some utterances, one after the other.
pub open spec fn transcript_lines(entries: Seq<TranscriptEntryView>) -> Seq<char>
    decreases entries.len(),
{
    if entries.len() == 0 {
        Seq::empty()
    } else {
        transcript_lines(entries.drop_last()) + transcript_line(entries.last())
    }
}

/// The section of an export on the transcript: nothing where it has no entry.
pub open spec fn transcript_section(entries: Seq<TranscriptEntryView>) -> Seq<char> {
    if entries.len() == 0 {
        Seq::empty()
    } else {
        "## Transcript\n\n"@ + transcript_lines(entries)
    }
}

/// The last lines of an export.
pub open spec fn footer(exported_on: Seq<char>) -> Seq<char> {
    "\n---\n\n"@ + "*Exported from Meeting Assistant on "@ + exported_on + "*\n"@
}

/// A meeting as Markdown.
pub open spec fn markdown_of(
    meeting: MeetingView,
    labels: ExportLabelsView,
    transcript: Seq<TranscriptEntryView>,
    notes: Seq<NoteView>,
    summary: Option<Seq<char>>,
) -> Seq<char> {
    title_section(meeting.title) + information_section(meeting, labels) + summary_section(summary)
        + notes_section(notes) + transcript_section(transcript) + footer(labels.exported_on)
}

/// The name of the file for the export of a meeting: its title with an
/// underscore for each space and a hyphen for each slash, and `.md` behind it.
pub open spec fn file_name_of(title: Seq<char>) -> Seq<char> {
    replaced(replaced(title, ' ', '_'), '/', '-') + ".md"@
}

/// An exported meeting.
#[derive(Debug, Clone)]
pub struct ExportResult {
    pub file_path: String,
    pub content: String,
}

/// An exported meeting as a mathematical value.
pub struct ExportResultView {
    pub file_path: Seq<char>,
    pub content: Seq<char>,
}

impl View for ExportResult {
    type V = ExportResultView;

    open spec fn view(&self) -> ExportResultView {
        ExportResultView { file_path: self.file_path@, content: self.content@ }
    }
}

/// The export of a meeting.
pub open spec fn export_of(
    meeting: MeetingView,
    labels: ExportLabelsView,
    transcript: Seq<TranscriptEntryView>,
    notes: Seq<NoteView>,
    summary: Option<Seq<char>>,
) -> ExportResultView {
    ExportResultView {
        file_path: file_name_of(meeting.title),
        content: markdown_of(meeting, labels, transcript, notes, summary),
    }
}

/// Writes the line that says how long a meeting took at the end of `out`.
fn push_duration_line(out: &mut String, hours: i64, minutes: i64)
    ensures
        final(out)@ == old(out)@ + duration_line(hours as int, minutes as int),
{
    let mins = minutes % 60;
    assert(mins == trunc_rem(minutes as int, 60));
    out.append("- **Duration**: ");
    if hours > 0 {
        push_decimal(out, hours);
        out.append("h ");
    }
    push_decimal(out, mins);
    out.append("m\n");
    assert(out@ =~= old(out)@ + duration_line(hours as int, minutes as int));
}

/// Writes the lines on the end of a meeting at the end of `out`.
fn push_end_lines(out: &mut String, end: &Option<MeetingEnd>)
    ensures
        final(out)@ == old(out)@ + end_lines(
            match *end {
                Some(end) => Some(end@),
                None => None,
            },
        ),
{
    match end {
        Some(end) => {
            out.append("- **End Time**: ");
            out.append(end.time.as_str());
            out.append("\n");
            push_duration_line(out, end.hours, end.minutes);
            assert(out@ =~= old(out)@ + end_lines(Some(end@)));
        },
        None => {
            assert(out@ =~= old(out)@ + end_lines(None));
        },
    }
}

/// Writes the participants of a meeting at the end of `out`.
fn push_participants(out: &mut String, participants: &Vec<Participant>)
    ensures
        final(out)@ == old(out)@ + participants_text(participant_views(participants@)),
{
    let ghost names = participant_names(participant_views(participants@));
    if participants.len() == 0 {
        out.append("N/A");
        return ;
    }
    let mut i: usize = 0;
    while i < participants.len()
        invariant
            i <= participants.len(),
            names == participant_names(participant_views(participants@)),
            out@ == old(out)@ + joined(names.take(i as int), ", "@),
        decreases participants.len() - i,
    {
        let ghost before = out@;
        if i > 0 {
            out.append(", ");
        }
        out.append(participants[i].name.as_str());
        proof {
            let upto = names.take(i + 1);
            assert(upto.drop_last() =~= names.take(i as int));
            assert(upto.last() == participants@[i as int].name@);
            assert(out@ =~= old(out)@ + joined(upto, ", "@));
        }
        i += 1;
    }
    assert(names.take(participants.len() as int) =~= names);
}

/// Writes the section on the meeting itself at the end of `out`.
fn push_information(out: &mut String, meeting: &Meeting, labels: &ExportLabels)
    ensures
        final(out)@ == old(out)@ + information_section(meeting@, labels@),
{
    out.append("## Meeting Information\n\n");
    out.append("- **Date**: ");
    out.append(labels.date.as_str());
    out.append("\n");
    out.append("- **Start Time**: ");
    out.append(labels.start_time.as_str());
    out.append("\n");
    push_end_lines(out, &labels.end);
    out.append("- **Participants**: ");
    push_participants(out, &meeting.participants);
    out.append("\n");
    out.append("\n---\n\n");
    assert(out@ =~= old(out)@ + information_section(meeting@, labels@));
}

/// Writes the section that holds the summary at the end of `out`.
fn push_summary(out: &mut String, summary: &Option<String>)
    ensures
        final(out)@ == old(out)@ + summary_section(opt_chars(*summary)),
{
    match summary {
        Some(summary) => {
            out.append("## Summary\n\n");
            out.append(summary.as_str());
            out.append("\n\n---\n\n");
            assert(out@ =~= old(out)@ + summary_section(Some(summary@)));
        },
        None => {
            assert(out@ =~= old(out)@ + summary_section(None));
        },
    }
}

/// The group under which an export lists notes of the given kind.
fn note_group(note_type: NoteType) -> (group: NoteGroup)
    ensures
        group == group_of(note_type),
{
    match note_type {
        NoteType::ActionItem => NoteGroup::ActionItems,
        NoteType::KeyPoint => NoteGroup::KeyPoints,
        NoteType::Decision => NoteGroup::Decisions,
        _ => NoteGroup::Other,
    }
}

/// The heading of a group of notes.
fn group_heading_text(group: NoteGroup) -> (heading: &'static str)
    ensures
        heading@ == group_heading(group),
{
    match group {
        NoteGroup::ActionItems => "### Action Items\n\n",
        NoteGroup::KeyPoints => "### Key Points\n\n",
        NoteGroup::Decisions => "### Decisions\n\n",
        NoteGroup::Other => "### Other Notes\n\n",
    }
}

/// Writes the line of a note at the end of `out`.
fn push_note_line(out: &mut String, note: &Note)
    ensures
        final(out)@ == old(out)@ + note_line(note@),
{
    out.append("- ");
    match note.note_type {
        NoteType::ActionItem => {
            if note.completed {
                out.append("[x]");
            } else {
                out.append("[ ]");
            }
            out.append(" ");
            out.append(note.content.as_str());
            match &note.assignee {
                Some(assignee) => {
                    out.append(" *(");
                    out.append(assignee.as_str());
                    out.append(")*");
                },
                None => {},
            }
        },
        _ => {
            out.append(note.content.as_str());
        },
    }
    out.append("\n");
    assert(out@ =~= old(out)@ + note_line(note@));
}

/// Writes the part on one group of notes at the end of `out`.
fn push_group(out: &mut String, notes: &Vec<Note>, group: NoteGroup)
    ensures
        final(out)@ == old(out)@ + group_section(note_views(notes@), group),
{
    let ghost members = in_group(group);
    let mut any = false;
    let mut i: usize = 0;
    assert(note_views(notes@.take(0)).filter(members) =~= Seq::<NoteView>::empty());
    while i < notes.len()
        invariant
            i <= notes.len(),
            members == in_group(group),
            any == (note_views(notes@.take(i as int)).filter(members).len() > 0),
        decreases notes.len() - i,
    {
        proof {
            assert(note_views(notes@.take(i + 1)) =~= note_views(notes@.take(i as int)).push(
                notes@[i as int]@,
            ));
            note_views(notes@.take(i as int)).lemma_filter_push(notes@[i as int]@, members);
        }
        if note_group(notes[i].note_type) == group {
            any = true;
        }
        i += 1;
    }
    assert(notes@.take(notes.len() as int) =~= notes@);
    if !any {
        assert(out@ =~= old(out)@ + group_section(note_views(notes@), group));
        return ;
    }
    out.append(group_heading_text(group));
    let mut j: usize = 0;
    assert(note_lines(note_views(notes@.take(0)).filter(members)) =~= Seq::<char>::empty());
    while j < notes.len()
        invariant
            j <= notes.len(),
            members == in_group(group),
            out@ == old(out)@ + group_heading(group) + note_lines(
                note_views(notes@.take(j as int)).filter(members),
            ),
        decreases notes.len() - j,
    {
        let ghost before = note_views(notes@.take(j as int)).filter(members);
        proof {
            assert(note_views(notes@.take(j + 1)) =~= note_views(notes@.take(j as int)).push(
                notes@[j as int]@,
            ));
            note_views(notes@.take(j as int)).lemma_filter_push(notes@[j as int]@, members);
        }
        if note_group(notes[j].note_type) == group {
            push_note_line(out, &notes[j]);
            proof {
                let after = before.push(notes@[j as int]@);
                assert(after.drop_last() =~= before);
                assert(out@ =~= old(out)@ + group_heading(group) + note_lines(after));
            }
        }
        j += 1;
    }
    out.append("\n");
    assert(out@ =~= old(out)@ + group_section(note_views(notes@), group));
}

/// Writes the section on the notes at the end of `out`.
fn push_notes(out: &mut String, notes: &Vec<Note>)
    ensures
        final(out)@ == old(out)@ + notes_section(note_views(notes@)),
{
    if notes.len() == 0 {
        assert(out@ =~= old(out)@ + notes_section(note_views(notes@)));
        return ;
    }
    out.append("## Notes\n\n");
    push_group(out, notes, NoteGroup::ActionItems);
    push_group(out, notes, NoteGroup::KeyPoints);
    push_group(out, notes, NoteGroup::Decisions);
    push_group(out, notes, NoteGroup::Other);
    out.append("---\n\n");
    assert(out@ =~= old(out)@ + notes_section(note_views(notes@)));
}

/// Writes the section on the transcript at the end of `out`.
fn push_transcript(out: &mut String, transcript: &Vec<TranscriptEntry>)
    ensures
        final(out)@ == old(out)@ + transcript_section(transcript_views(transcript@)),
{
    if transcript.len() == 0 {
        assert(out@ =~= old(out)@ + transcript_section(transcript_views(transcript@)));
        return ;
    }
    out.append("## Transcript\n\n");
    let mut i: usize = 0;
    assert(transcript_lines(transcript_views(transcript@.take(0))) =~= Seq::<char>::empty());
    while i < transcript.len()
        invariant
            i <= transcript.len(),
            out@ == old(out)@ + "## Transcript\n\n"@ + transcript_lines(
                transcript_views(transcript@.take(i as int)),
            ),
        decreases transcript.len() - i,
    {
        let entry = &transcript[i];
        out.append("**[");
        push_timestamp(out, entry.timestamp);
        out.append("] ");
        out.append(entry.speaker_name.as_str());
        out.append("**: ");
        out.append(entry.text.as_str());
        out.append("\n\n");
        proof {
            let upto = transcript_views(transcript@.take(i + 1));
            assert(upto.drop_last() =~= transcript_views(transcript@.take(i as int)));
            assert(upto.last() == entry@);
            assert(out@ =~= old(out)@ + "## Transcript\n\n"@ + transcript_lines(upto));
        }
        i += 1;
    }
    assert(transcript@.take(transcript.len() as int) =~= transcript@);
}

/// The name of the file for the export of a meeting with the given title.
pub fn export_file_name(title: &str) -> (name: String)
    ensures
        name@ == file_name_of(title@),
{
    proof {
        reveal_strlit("_");
        reveal_strlit("-");
    }
    let spaced = replace_char(title, ' ', "_");
    let mut name = replace_char(spaced.as_str(), '/', "-");
    name.append(".md");
    name
}

/// The export of a meeting as Markdown, with the labels that the calendar
/// supplied: the title, the information on the meeting, the summary where
/// one is given, the notes by group, the transcript, and the footer.
pub fn render_meeting_markdown(
    meeting: &Meeting,
    labels: &ExportLabels,
    transcript: &Vec<TranscriptEntry>,
    notes: &Vec<Note>,
    include_summary: &Option<String>,
) -> (export: ExportResult)
    ensures
        export@ == export_of(
            meeting@,
            labels@,
            transcript_views(transcript@),
            note_views(notes@),
            opt_chars(*include_summary),
        ),
{
    let mut md = String::new();
    md.append("# ");
    md.append(meeting.title.as_str());
    md.append("\n\n");
    assert(md@ =~= title_section(meeting@.title));
    push_information(&mut md, meeting, labels);
    push_summary(&mut md, include_summary);
    push_notes(&mut md, notes);
    push_transcript(&mut md, transcript);
    md.append("\n---\n\n");
    md.append("*Exported from Meeting Assistant on ");
    md.append(labels.exported_on.as_str());
    md.append("*\n");
    assert(md@ =~= markdown_of(
        meeting@,
        labels@,
        transcript_views(transcript@),
        note_views(notes@),
        opt_chars(*include_summary),
    ));
    ExportResult { file_path: export_file_name(meeting.title.as_str()), content: md }
}

/// Exports a meeting as Markdown at the current instant, whatever the clock
/// says that is. There is no export where the calendar has no instant for
/// one of the times of the meeting.
pub fn export_meeting_markdown(
    meeting: &Meeting,
    transcript: &Vec<TranscriptEntry>,
    notes: &Vec<Note>,
    include_summary: &Option<String>,
) -> (export: Option<ExportResult>)
    ensures
        exists|now: UtcTime|
            match export {
                Some(export) => labels_of(meeting@, now) matches Some(labels) && export@
                    == export_of(
                    meeting@,
                    labels,
                    transcript_views(transcript@),
                    note_views(notes@),
                    opt_chars(*include_summary),
                ),
                None => labels_of(meeting@, now) is None,
            },
{
    let now = now_utc();
    let export = match export_labels(meeting, now) {
        Some(labels) => Some(
            render_meeting_markdown(meeting, &labels, transcript, notes, include_summary),
        ),
        None => None,
    };
    assert(match export {
        Some(export) => labels_of(meeting@, now) matches Some(labels) && export@ == export_of(
            meeting@,
            labels,
            transcript_views(transcript@),
            note_views(notes@),
            opt_chars(*include_summary),
        ),
        None => labels_of(meeting@, now) is None,
    });
    export
}

} // verus!
