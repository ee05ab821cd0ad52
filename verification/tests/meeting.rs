use work_insights::meeting::commands::{
    add_note, end_meeting, format_timestamp, get_audio_sources, meeting_ended, meeting_title,
    meeting_with_status, new_meeting, new_note, pause_meeting, resume_meeting, start_meeting,
};
use work_insights::meeting::db::{
    note_type_to_string, parse_datetime, status_to_string, string_to_status,
};
use work_insights::meeting::models::{Meeting, MeetingStatus, NoteType, Participant, UtcTime};

fn at(secs: i64) -> UtcTime {
    UtcTime { secs, nanos: 0 }
}

fn meeting() -> Meeting {
    let mut meeting = new_meeting("m-1".to_string(), "Weekly".to_string(), at(100), at(101), at(102));
    meeting.participants.push(Participant {
        id: "p-1".to_string(),
        name: "Ann".to_string(),
        color: "#fff".to_string(),
        is_local: true,
    });
    meeting.translation_target = Some("de".to_string());
    meeting.audio_path = Some("/tmp/a.wav".to_string());
    meeting
}

#[test]
fn note_types_have_their_names() {
    assert_eq!(NoteType::from_str("key-point"), NoteType::KeyPoint);
    assert_eq!(NoteType::from_str("action-item"), NoteType::ActionItem);
    assert_eq!(NoteType::from_str("decision"), NoteType::Decision);
    assert_eq!(NoteType::from_str("question"), NoteType::Question);
    assert_eq!(NoteType::from_str("follow-up"), NoteType::FollowUp);
    assert_eq!(NoteType::from_str("manual"), NoteType::Manual);
}

#[test]
fn an_unknown_note_type_is_a_manual_note() {
    for name in ["", "Key-Point", "key-point ", "action_item", "todo", "follow up"] {
        assert_eq!(NoteType::from_str(name), NoteType::Manual, "{name:?}");
    }
}

#[test]
fn note_types_are_stored_under_their_names_and_read_back() {
    let all = [
        (NoteType::KeyPoint, "key-point"),
        (NoteType::ActionItem, "action-item"),
        (NoteType::Decision, "decision"),
        (NoteType::Question, "question"),
        (NoteType::FollowUp, "follow-up"),
        (NoteType::Manual, "manual"),
    ];
    for (note_type, name) in all {
        assert_eq!(note_type_to_string(&note_type), name);
        assert_eq!(NoteType::from_str(note_type_to_string(&note_type)), note_type);
    }
}

#[test]
fn statuses_are_stored_under_their_names_and_read_back() {
    let all = [
        (MeetingStatus::Idle, "idle"),
        (MeetingStatus::Recording, "recording"),
        (MeetingStatus::Paused, "paused"),
        (MeetingStatus::Completed, "completed"),
    ];
    for (status, name) in all {
        assert_eq!(status_to_string(&status), name);
        assert_eq!(string_to_status(name), status);
    }
}

#[test]
fn an_unknown_status_is_idle() {
    for name in ["", "Recording", "done", "paused "] {
        assert_eq!(string_to_status(name), MeetingStatus::Idle, "{name:?}");
    }
}

#[test]
fn positions_are_minutes_and_seconds_until_the_first_hour() {
    assert_eq!(format_timestamp(0), "00:00");
    assert_eq!(format_timestamp(999), "00:00");
    assert_eq!(format_timestamp(1_000), "00:01");
    assert_eq!(format_timestamp(59_999), "00:59");
    assert_eq!(format_timestamp(61_000), "01:01");
    assert_eq!(format_timestamp(3_599_999), "59:59");
}

#[test]
fn positions_have_hours_from_the_first_hour_on() {
    assert_eq!(format_timestamp(3_600_000), "01:00:00");
    assert_eq!(format_timestamp(3_661_000), "01:01:01");
    assert_eq!(format_timestamp(36_000_000), "10:00:00");
    assert_eq!(format_timestamp(360_000_000), "100:00:00");
    assert_eq!(format_timestamp(i64::MAX), "2562047788015:12:55");
}

#[test]
fn positions_before_the_start_keep_their_sign() {
    assert_eq!(format_timestamp(-1), "00:00");
    assert_eq!(format_timestamp(-5_000), "00:-5");
    assert_eq!(format_timestamp(-15_000), "00:-15");
    assert_eq!(format_timestamp(-65_000), "-1:-5");
    assert_eq!(format_timestamp(-3_661_000), "-1:-1");
    assert_eq!(format_timestamp(i64::MIN), "-12:-55");
}

#[test]
fn a_meeting_keeps_the_title_it_is_given() {
    assert_eq!(meeting_title("Standup".to_string(), "2024-01-01 09:00"), "Standup");
    assert_eq!(meeting_title(" ".to_string(), "2024-01-01 09:00"), " ");
}

#[test]
fn a_meeting_without_title_is_named_by_its_start() {
    assert_eq!(meeting_title(String::new(), "2024-01-01 09:00"), "Meeting 2024-01-01 09:00");
}

#[test]
fn a_new_meeting_is_recording() {
    let meeting = new_meeting("id".to_string(), "Title".to_string(), at(1), at(2), at(3));
    assert_eq!(meeting.id, "id");
    assert_eq!(meeting.title, "Title");
    assert_eq!(meeting.start_time, at(1));
    assert_eq!(meeting.end_time, None);
    assert!(meeting.participants.is_empty());
    assert_eq!(meeting.language, "en");
    assert_eq!(meeting.translation_target, None);
    assert_eq!(meeting.status, MeetingStatus::Recording);
    assert_eq!(meeting.audio_path, None);
    assert_eq!(meeting.created_at, at(2));
    assert_eq!(meeting.updated_at, at(3));
}

#[test]
fn starting_a_meeting_gives_it_an_identity_and_the_time() {
    let meeting = start_meeting("Planning".to_string());
    assert_eq!(meeting.title, "Planning");
    assert_eq!(meeting.status, MeetingStatus::Recording);
    assert_eq!(meeting.end_time, None);
    assert!(meeting.start_time.secs > 1_600_000_000);
    assert!(meeting.created_at.secs >= meeting.start_time.secs);
    assert!(meeting.updated_at.secs >= meeting.created_at.secs);
    assert_eq!(meeting.id.len(), 36);
    let other = start_meeting("Planning".to_string());
    assert_ne!(meeting.id, other.id);
}

#[test]
fn starting_a_meeting_without_title_names_it_by_the_minute() {
    let meeting = start_meeting(String::new());
    let stamp = meeting.title.strip_prefix("Meeting ").expect("the default title");
    assert_eq!(stamp.len(), "2024-01-01 09:00".len());
    assert_eq!(&stamp[4..5], "-");
    assert_eq!(&stamp[13..14], ":");
}

#[test]
fn a_status_changes_the_status_and_the_time_of_change_alone() {
    let changed = meeting_with_status(meeting(), MeetingStatus::Paused, at(500));
    assert_eq!(changed.status, MeetingStatus::Paused);
    assert_eq!(changed.updated_at, at(500));
    assert_eq!(changed.id, "m-1");
    assert_eq!(changed.title, "Weekly");
    assert_eq!(changed.start_time, at(100));
    assert_eq!(changed.end_time, None);
    assert_eq!(changed.participants.len(), 1);
    assert_eq!(changed.participants[0].name, "Ann");
    assert_eq!(changed.language, "en");
    assert_eq!(changed.translation_target.as_deref(), Some("de"));
    assert_eq!(changed.audio_path.as_deref(), Some("/tmp/a.wav"));
    assert_eq!(changed.created_at, at(101));
}

#[test]
fn an_ended_meeting_is_completed_and_has_its_end() {
    let changed = meeting_ended(meeting(), at(700), at(701));
    assert_eq!(changed.status, MeetingStatus::Completed);
    assert_eq!(changed.end_time, Some(at(700)));
    assert_eq!(changed.updated_at, at(701));
    assert_eq!(changed.start_time, at(100));
    assert_eq!(changed.participants.len(), 1);
}

#[test]
fn ending_pausing_and_resuming_go_by_the_clock() {
    let ended = end_meeting(meeting());
    assert_eq!(ended.status, MeetingStatus::Completed);
    assert!(ended.end_time.expect("ended").secs > 1_600_000_000);
    assert!(ended.updated_at.secs > 1_600_000_000);
    let paused = pause_meeting(meeting());
    assert_eq!(paused.status, MeetingStatus::Paused);
    assert_eq!(paused.end_time, None);
    assert!(paused.updated_at.secs > 1_600_000_000);
    let resumed = resume_meeting(paused);
    assert_eq!(resumed.status, MeetingStatus::Recording);
    assert_eq!(resumed.title, "Weekly");
}

#[test]
fn a_new_note_is_open_and_bare() {
    let note = new_note(
        "n-1".to_string(),
        "m-1".to_string(),
        "action-item",
        "Ship it".to_string(),
        42_000,
        at(5),
        at(6),
    );
    assert_eq!(note.id, "n-1");
    assert_eq!(note.meeting_id, "m-1");
    assert_eq!(note.note_type, NoteType::ActionItem);
    assert_eq!(note.content, "Ship it");
    assert_eq!(note.timestamp, 42_000);
    assert!(note.source_refs.is_empty());
    assert_eq!(note.assignee, None);
    assert_eq!(note.deadline, None);
    assert!(!note.completed);
    assert_eq!(note.created_at, at(5));
    assert_eq!(note.updated_at, at(6));
}

#[test]
fn adding_a_note_gives_it_an_identity_and_the_time() {
    let note = add_note("m-1".to_string(), "whatever".to_string(), "Hm".to_string(), 7);
    assert_eq!(note.note_type, NoteType::Manual);
    assert_eq!(note.meeting_id, "m-1");
    assert_eq!(note.content, "Hm");
    assert_eq!(note.timestamp, 7);
    assert_eq!(note.id.len(), 36);
    assert!(note.created_at.secs > 1_600_000_000);
    assert!(note.updated_at.secs >= note.created_at.secs);
    assert!(note.created_at.nanos < 2_000_000_000);
}

#[test]
fn the_default_microphone_is_the_one_audio_source() {
    let sources = get_audio_sources();
    assert_eq!(sources.len(), 1);
    assert_eq!(sources[0].id, "default-mic");
    assert_eq!(sources[0].name, "Default Microphone");
    assert_eq!(sources[0].source_type, "microphone");
    assert!(sources[0].is_default);
}

#[test]
fn a_stored_instant_is_read_back() {
    assert_eq!(parse_datetime("2015-05-15T09:00:00Z".to_string()), at(1_431_680_400));
    assert_eq!(parse_datetime("2015-05-15T09:00:00+00:00".to_string()), at(1_431_680_400));
    assert_eq!(parse_datetime("1996-12-19T16:39:57-08:00".to_string()), at(851_042_397));
    assert_eq!(
        parse_datetime("1970-01-01T00:00:01.5Z".to_string()),
        UtcTime { secs: 1, nanos: 500_000_000 }
    );
    assert_eq!(
        parse_datetime("1969-12-31T23:59:59.25Z".to_string()),
        UtcTime { secs: -1, nanos: 250_000_000 }
    );
}

#[test]
fn a_text_that_names_no_instant_stands_for_now() {
    for text in ["", "yesterday", "2015-05-15", "2015-05-15 09:00:00", "2015-13-45T09:00:00Z"] {
        assert!(parse_datetime(text.to_string()).secs > 1_600_000_000, "{text:?}");
    }
}
