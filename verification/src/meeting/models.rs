//! The records of a meeting.

use vstd::prelude::*;
use crate::text::{opt_chars, same_text};

verus! {

/// An instant of UTC: whole seconds since the Unix epoch and the nanoseconds
/// since the last whole second.
#[derive(Debug, Clone, Copy, PartialEq, Eq, Structural)]
pub struct UtcTime {
    pub secs: i64,
    pub nanos: u32,
}

/// What a meeting is doing.
#[derive(Debug, Clone, Copy, PartialEq, Eq, Structural)]
pub enum MeetingStatus {
    Idle,
    Recording,
    Paused,
    Completed,
}

/// Someone who takes part in a meeting.
#[derive(Debug, Clone)]
pub struct Participant {
    pub id: String,
    pub name: String,
    pub color: String,
    pub is_local: bool,
}

/// A participant as a mathematical value.
pub struct ParticipantView {
    pub id: Seq<char>,
    pub name: Seq<char>,
    pub color: Seq<char>,
    pub is_local: bool,
}

impl View for Participant {
    type V = ParticipantView;

    open spec fn view(&self) -> ParticipantView {
        ParticipantView {
            id: self.id@,
            name: self.name@,
            color: self.color@,
            is_local: self.is_local,
        }
    }
}

/// The participants as mathematical values.
pub open spec fn participant_views(participants: Seq<Participant>) -> Seq<ParticipantView> {
    participants.map_values(|p: Participant| p@)
}

/// A meeting.
#[derive(Debug, Clone)]
pub struct Meeting {
    pub id: String,
    pub title: String,
    pub start_time: UtcTime,
    pub end_time: Option<UtcTime>,
    pub participants: Vec<Participant>,
    pub language: String,
    pub translation_target: Option<String>,
    pub status: MeetingStatus,
    pub audio_path: Option<String>,
    pub created_at: UtcTime,
    pub updated_at: UtcTime,
}

/// A meeting as a mathematical value.
pub struct MeetingView {
    pub id: Seq<char>,
    pub title: Seq<char>,
    pub start_time: UtcTime,
    pub end_time: Option<UtcTime>,
    pub participants: Seq<ParticipantView>,
    pub language: Seq<char>,
    pub translation_target: Option<Seq<char>>,
    pub status: MeetingStatus,
    pub audio_path: Option<Seq<char>>,
    pub created_at: UtcTime,
    pub updated_at: UtcTime,
}

impl View for Meeting {
    type V = MeetingView;

    open spec fn view(&self) -> MeetingView {
        MeetingView {
            id: self.id@,
            title: self.title@,
            start_time: self.start_time,
            end_time: self.end_time,
            participants: participant_views(self.participants@),
            language: self.language@,
            translation_target: opt_chars(self.translation_target),
            status: self.status,
            audio_path: opt_chars(self.audio_path),
            created_at: self.created_at,
            updated_at: self.updated_at,
        }
    }
}

/// One utterance of a transcript. `timestamp` and `end_timestamp` are
/// milliseconds from the start of the meeting.
#[derive(Debug, Clone)]
pub struct TranscriptEntry {
    pub id: String,
    pub meeting_id: String,
    pub speaker_id: String,
    pub speaker_name: String,
    pub text: String,
    pub timestamp: i64,
    pub end_timestamp: i64,
    pub language: String,
    pub translation: Option<String>,
    pub created_at: UtcTime,
}

/// A transcript entry as a mathematical value.
pub struct TranscriptEntryView {
    pub id: Seq<char>,
    pub meeting_id: Seq<char>,
    pub speaker_id: Seq<char>,
    pub speaker_name: Seq<char>,
    pub text: Seq<char>,
    pub timestamp: int,
    pub end_timestamp: int,
    pub language: Seq<char>,
    pub translation: Option<Seq<char>>,
    pub created_at: UtcTime,
}

impl View for TranscriptEntry {
    type V = TranscriptEntryView;

    open spec fn view(&self) -> TranscriptEntryView {
        TranscriptEntryView {
            id: self.id@,
            meeting_id: self.meeting_id@,
            speaker_id: self.speaker_id@,
            speaker_name: self.speaker_name@,
            text: self.text@,
            timestamp: self.timestamp as int,
            end_timestamp: self.end_timestamp as int,
            language: self.language@,
            translation: opt_chars(self.translation),
            created_at: self.created_at,
        }
    }
}

/// The entries of a transcript as mathematical values.
pub open spec fn transcript_views(entries: Seq<TranscriptEntry>) -> Seq<TranscriptEntryView> {
    entries.map_values(|e: TranscriptEntry| e@)
}

/// What kind of note a note is.
#[derive(Debug, Clone, Copy, PartialEq, Eq, Structural)]
pub enum NoteType {
    KeyPoint,
    ActionItem,
    Decision,
    Question,
    FollowUp,
    Manual,
}

/// The kind of note that a name stands for. Any name that is not one of the
/// five known ones stands for a manual note.
pub open spec fn note_type_of(name: Seq<char>) -> NoteType {
    if name == "key-point"@ {
        NoteType::KeyPoint
    } else if name == "action-item"@ {
        NoteType::ActionItem
    } else if name == "decision"@ {
        NoteType::Decision
    } else if name == "question"@ {
        NoteType::Question
    } else if name == "follow-up"@ {
        NoteType::FollowUp
    } else {
        NoteType::Manual
    }
}

impl NoteType {
    /// The kind of note that `s` names.
    pub fn from_str(s: &str) -> (note_type: NoteType)
        ensures
            note_type == note_type_of(s@),
    {
        if same_text(s, "key-point") {
            NoteType::KeyPoint
        } else if same_text(s, "action-item") {
            NoteType::ActionItem
        } else if same_text(s, "decision") {
            NoteType::Decision
        } else if same_text(s, "question") {
            NoteType::Question
        } else if same_text(s, "follow-up") {
            NoteType::FollowUp
        } else {
            NoteType::Manual
        }
    }
}

/// A note taken in a meeting. `timestamp` is milliseconds from the start of
/// the meeting.
#[derive(Debug, Clone)]
pub struct Note {
    pub id: String,
    pub meeting_id: String,
    pub note_type: NoteType,
    pub content: String,
    pub timestamp: i64,
    pub source_refs: Vec<String>,
    pub assignee: Option<String>,
    pub deadline: Option<UtcTime>,
    pub completed: bool,
    pub created_at: UtcTime,
    pub updated_at: UtcTime,
}

/// A note as a mathematical value.
pub struct NoteView {
    pub id: Seq<char>,
    pub meeting_id: Seq<char>,
    pub note_type: NoteType,
    pub content: Seq<char>,
    pub timestamp: int,
    pub source_refs: Seq<Seq<char>>,
    pub assignee: Option<Seq<char>>,
    pub deadline: Option<UtcTime>,
    pub completed: bool,
    pub created_at: UtcTime,
    pub updated_at: UtcTime,
}

impl View for Note {
    type V = NoteView;

    open spec fn view(&self) -> NoteView {
        NoteView {
            id: self.id@,
            meeting_id: self.meeting_id@,
            note_type: self.note_type,
            content: self.content@,
            timestamp: self.timestamp as int,
            source_refs: self.source_refs@.map_values(|s: String| s@),
            assignee: opt_chars(self.assignee),
            deadline: self.deadline,
            completed: self.completed,
            created_at: self.created_at,
            updated_at: self.updated_at,
        }
    }
}

/// The notes as mathematical values.
pub open spec fn note_views(notes: Seq<Note>) -> Seq<NoteView> {
    notes.map_values(|n: Note| n@)
}

/// A source of audio.
#[derive(Debug, Clone)]
pub struct AudioSource {
    pub id: String,
    pub name: String,
    /// One of "microphone", "system", "virtual".
    pub source_type: String,
    pub is_default: bool,
}

/// An audio source as a mathematical value.
pub struct AudioSourceView {
    pub id: Seq<char>,
    pub name: Seq<char>,
    pub source_type: Seq<char>,
    pub is_default: bool,
}

impl View for AudioSource {
    type V = AudioSourceView;

    open spec fn view(&self) -> AudioSourceView {
        AudioSourceView {
            id: self.id@,
            name: self.name@,
            source_type: self.source_type@,
            is_default: self.is_default,
        }
    }
}

/// The summary of one topic of a meeting. The times are milliseconds from the
/// start of the meeting.
#[derive(Debug, Clone)]
pub struct TopicSummary {
    pub id: String,
    pub title: String,
    pub summary: String,
    pub start_time: i64,
    pub end_time: i64,
    pub key_points: Vec<String>,
}

/// The summary of a topic as a mathematical value.
pub struct TopicSummaryView {
    pub id: Seq<char>,
    pub title: Seq<char>,
    pub summary: Seq<char>,
    pub start_time: int,
    pub end_time: int,
    pub key_points: Seq<Seq<char>>,
}

impl View for TopicSummary {
    type V = TopicSummaryView;

    open spec fn view(&self) -> TopicSummaryView {
        TopicSummaryView {
            id: self.id@,
            title: self.title@,
            summary: self.summary@,
            start_time: self.start_time as int,
            end_time: self.end_time as int,
            key_points: self.key_points@.map_values(|s: String| s@),
        }
    }
}

/// The summary of a meeting.
#[derive(Debug, Clone)]
pub struct MeetingSummary {
    pub id: String,
    pub meeting_id: String,
    pub executive_summary: String,
    pub key_decisions: Vec<String>,
    pub action_items: Vec<Note>,
    pub topics: Vec<TopicSummary>,
    pub duration: i64,
    pub participant_count: usize,
    pub generated_at: UtcTime,
}

/// The summary of a meeting as a mathematical value.
pub struct MeetingSummaryView {
    pub id: Seq<char>,
    pub meeting_id: Seq<char>,
    pub executive_summary: Seq<char>,
    pub key_decisions: Seq<Seq<char>>,
    pub action_items: Seq<NoteView>,
    pub topics: Seq<TopicSummaryView>,
    pub duration: int,
    pub participant_count: nat,
    pub generated_at: UtcTime,
}

impl View for MeetingSummary {
    type V = MeetingSummaryView;

    open spec fn view(&self) -> MeetingSummaryView {
        MeetingSummaryView {
            id: self.id@,
            meeting_id: self.meeting_id@,
            executive_summary: self.executive_summary@,
            key_decisions: self.key_decisions@.map_values(|s: String| s@),
            action_items: note_views(self.action_items@),
            topics: self.topics@.map_values(|t: TopicSummary| t@),
            duration: self.duration as int,
            participant_count: self.participant_count as nat,
            generated_at: self.generated_at,
        }
    }
}

} // verus!
