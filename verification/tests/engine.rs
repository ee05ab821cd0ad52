use work_insights::activity::monitor::ActivityMonitor;
use work_insights::activity::ActivitySnapshot;
use work_insights::database::queries::Activity;

fn sample(app: &str, title: &str, at: i64) -> Option<ActivitySnapshot> {
    Some(ActivitySnapshot {
        app_name: app.to_string(),
        window_title: title.to_string(),
        timestamp: at,
    })
}

/// Feeds the keys to a fresh engine at ticks of ten seconds, starting at zero,
/// and collects what each tick emits.
fn run(keys: &[Option<&str>]) -> Vec<(i64, Activity)> {
    let mut monitor = ActivityMonitor::starting_at(0);
    let mut emitted = Vec::new();
    let mut now = 0;
    for key in keys {
        let snapshot = key.and_then(|app| sample(app, "window", now));
        if let Some(segment) = monitor.on_sample(&snapshot, now) {
            emitted.push((now, segment));
        }
        now += 10;
    }
    emitted
}

#[test]
fn two_segments_for_three_runs() {
    let mut monitor = ActivityMonitor::starting_at(0);
    assert!(monitor.on_sample(&sample("app1", "main", 0), 0).is_none());
    assert!(monitor.on_sample(&sample("app1", "main", 10), 10).is_none());
    let first = monitor.on_sample(&sample("app2", "main", 20), 20).expect("app1 closes at 20");
    assert_eq!(first.app_name, "app1");
    assert_eq!(first.timestamp, 0);
    assert_eq!(first.duration_seconds, 20);
    assert_eq!(first.window_title.as_deref(), Some("main"));
    assert!(!first.is_idle);
    assert_eq!(first.id, None);
    assert_eq!(first.category, None);
    assert!(monitor.on_sample(&sample("app2", "main", 30), 30).is_none());
    let second = monitor.on_sample(&sample("app1", "main", 40), 40).expect("app2 closes at 40");
    assert_eq!(second.app_name, "app2");
    assert_eq!(second.timestamp, 20);
    assert_eq!(second.duration_seconds, 20);
}

#[test]
fn scenario_emits_at_twenty_and_forty_and_leaves_the_last_run_open() {
    let emitted = run(&[Some("app1"), Some("app1"), Some("app2"), Some("app2"), Some("app1")]);
    assert_eq!(emitted.len(), 2);
    assert_eq!(emitted[0].0, 20);
    assert_eq!(emitted[0].1.app_name, "app1");
    assert_eq!(emitted[0].1.timestamp, 0);
    assert_eq!(emitted[0].1.duration_seconds, 20);
    assert_eq!(emitted[1].0, 40);
    assert_eq!(emitted[1].1.app_name, "app2");
    assert_eq!(emitted[1].1.timestamp, 20);
    assert_eq!(emitted[1].1.duration_seconds, 20);
}

#[test]
fn consecutive_segments_meet_without_overlap() {
    let emitted = run(&[Some("a"), Some("b"), Some("b"), Some("c"), Some("a"), Some("a"), Some("b")]);
    assert_eq!(emitted.len(), 4);
    for pair in emitted.windows(2) {
        let (first, second) = (&pair[0].1, &pair[1].1);
        assert_eq!(first.timestamp + i64::from(first.duration_seconds), second.timestamp);
    }
}

#[test]
fn an_idle_period_leaves_a_gap_between_segments() {
    let emitted = run(&[Some("a"), None, Some("b"), Some("c")]);
    assert_eq!(emitted.len(), 2);
    assert_eq!(emitted[0].1.timestamp + i64::from(emitted[0].1.duration_seconds), 10);
    assert_eq!(emitted[1].1.timestamp, 20);
}

#[test]
fn every_emitted_segment_lasts_some_time() {
    let emitted = run(&[Some("a"), Some("b"), None, Some("c"), Some("c"), Some("a")]);
    assert!(!emitted.is_empty());
    for (_, segment) in &emitted {
        assert!(segment.duration_seconds > 0);
    }
}

#[test]
fn identical_key_emits_nothing_until_it_changes() {
    let mut monitor = ActivityMonitor::starting_at(0);
    let ticks = 7;
    for tick in 0..ticks {
        let now = 100 + tick * 10;
        assert!(monitor.on_sample(&sample("editor", "notes.txt", now), now).is_none());
    }
    let change = 100 + ticks * 10;
    let segment = monitor.on_sample(&sample("browser", "news", change), change).expect("one segment");
    assert_eq!(segment.app_name, "editor");
    assert_eq!(segment.window_title.as_deref(), Some("notes.txt"));
    assert_eq!(segment.timestamp, 100);
    assert_eq!(i64::from(segment.duration_seconds), ticks * 10);
    assert!(monitor.on_sample(&sample("browser", "news", change + 10), change + 10).is_none());
}

#[test]
fn idle_transitions_produce_no_idle_record() {
    let emitted = run(&[Some("A"), Some("A"), None, None, Some("B")]);
    assert_eq!(emitted.len(), 1);
    let (at, segment) = &emitted[0];
    assert_eq!(*at, 20);
    assert_eq!(segment.app_name, "A");
    assert_eq!(segment.timestamp, 0);
    assert_eq!(segment.duration_seconds, 20);
    assert!(!segment.is_idle);
}

#[test]
fn the_segment_after_an_idle_period_is_emitted_on_its_next_transition() {
    let emitted = run(&[Some("A"), Some("A"), None, None, Some("B"), Some("B"), Some("C")]);
    assert_eq!(emitted.len(), 2);
    assert_eq!(emitted[1].0, 60);
    assert_eq!(emitted[1].1.app_name, "B");
    assert_eq!(emitted[1].1.timestamp, 40);
    assert_eq!(emitted[1].1.duration_seconds, 20);
}

#[test]
fn first_sample_emits_nothing() {
    let mut monitor = ActivityMonitor::starting_at(0);
    assert!(monitor.on_sample(&sample("app", "w", 500), 500).is_none());
    let mut idle = ActivityMonitor::starting_at(0);
    assert!(idle.on_sample(&None, 500).is_none());
}

#[test]
fn a_change_at_the_same_instant_is_discarded_but_advances_the_state() {
    let mut monitor = ActivityMonitor::starting_at(0);
    assert!(monitor.on_sample(&sample("a", "w", 50), 50).is_none());
    assert!(monitor.on_sample(&sample("b", "w", 50), 50).is_none());
    let segment = monitor.on_sample(&sample("c", "w", 60), 60).expect("b closes");
    assert_eq!(segment.app_name, "b");
    assert_eq!(segment.timestamp, 50);
    assert_eq!(segment.duration_seconds, 10);
}

#[test]
fn a_clock_that_went_back_discards_the_segment_and_advances_the_state() {
    let mut monitor = ActivityMonitor::starting_at(0);
    assert!(monitor.on_sample(&sample("a", "w", 100), 100).is_none());
    assert!(monitor.on_sample(&sample("b", "w", 40), 40).is_none());
    let segment = monitor.on_sample(&sample("a", "w", 70), 70).expect("b closes");
    assert_eq!(segment.app_name, "b");
    assert_eq!(segment.timestamp, 40);
    assert_eq!(segment.duration_seconds, 30);
}

#[test]
fn a_duration_that_does_not_fit_is_discarded() {
    let mut monitor = ActivityMonitor::starting_at(0);
    assert!(monitor.on_sample(&sample("a", "w", 0), 0).is_none());
    let too_long = i64::from(u32::MAX) + 1;
    assert!(monitor.on_sample(&sample("b", "w", too_long), too_long).is_none());
    let mut other = ActivityMonitor::starting_at(0);
    assert!(other.on_sample(&sample("a", "w", 0), 0).is_none());
    let longest = i64::from(u32::MAX);
    let segment = other.on_sample(&sample("b", "w", longest), longest).expect("fits");
    assert_eq!(segment.duration_seconds, u32::MAX);
}

#[test]
fn timestamps_at_the_ends_of_the_range_do_not_overflow() {
    let mut monitor = ActivityMonitor::starting_at(i64::MIN);
    assert!(monitor.on_sample(&sample("a", "w", i64::MIN), i64::MIN).is_none());
    assert!(monitor.on_sample(&sample("b", "w", i64::MAX), i64::MAX).is_none());
    assert!(monitor.on_sample(&sample("a", "w", i64::MIN), i64::MIN).is_none());
}

#[test]
fn a_segment_has_the_sampled_name_and_title_whatever_they_hold() {
    let mut monitor = ActivityMonitor::starting_at(0);
    assert!(monitor.on_sample(&sample("Terminal", "ssh: host: ~", 0), 0).is_none());
    let segment = monitor.on_sample(&None, 10).expect("closes");
    assert_eq!(segment.app_name, "Terminal");
    assert_eq!(segment.window_title.as_deref(), Some("ssh: host: ~"));
    let mut other = ActivityMonitor::starting_at(0);
    assert!(other.on_sample(&sample("C:\\tools", "x", 0), 0).is_none());
    let whole = other.on_sample(&None, 10).expect("closes");
    assert_eq!(whole.app_name, "C:\\tools");
    assert_eq!(whole.window_title.as_deref(), Some("x"));
}

#[test]
fn a_name_with_a_colon_is_recorded_as_sampled() {
    let mut monitor = ActivityMonitor::starting_at(0);
    assert!(monitor.on_sample(&sample("a:b", "c", 0), 0).is_none());
    let segment = monitor.on_sample(&sample("x", "y", 10), 10).expect("closes at 10");
    assert_eq!(segment.app_name, "a:b");
    assert_eq!(segment.window_title.as_deref(), Some("c"));
    assert_eq!(segment.timestamp, 0);
    assert_eq!(segment.duration_seconds, 10);
}

#[test]
fn keys_that_join_to_the_same_text_are_different_activities() {
    let mut monitor = ActivityMonitor::starting_at(0);
    assert!(monitor.on_sample(&sample("a:b", "c", 0), 0).is_none());
    let segment = monitor.on_sample(&sample("a", "b:c", 10), 10).expect("another activity");
    assert_eq!(segment.app_name, "a:b");
    assert_eq!(segment.window_title.as_deref(), Some("c"));
    let next = monitor.on_sample(&sample("a:b", "c", 30), 30).expect("and back");
    assert_eq!(next.app_name, "a");
    assert_eq!(next.window_title.as_deref(), Some("b:c"));
    assert_eq!(next.timestamp, 10);
    assert_eq!(next.duration_seconds, 20);
}

#[test]
fn an_empty_name_or_title_is_a_key_like_any_other() {
    let mut monitor = ActivityMonitor::starting_at(0);
    assert!(monitor.on_sample(&sample("", "", 0), 0).is_none());
    assert!(monitor.on_sample(&sample("", "", 10), 10).is_none());
    let segment = monitor.on_sample(&sample("", "t", 20), 20).expect("closes");
    assert_eq!(segment.app_name, "");
    assert_eq!(segment.window_title.as_deref(), Some(""));
    assert_eq!(segment.duration_seconds, 20);
}

#[test]
fn the_same_application_with_another_title_is_another_activity() {
    let mut monitor = ActivityMonitor::starting_at(0);
    assert!(monitor.on_sample(&sample("editor", "a.rs", 0), 0).is_none());
    let segment = monitor.on_sample(&sample("editor", "b.rs", 10), 10).expect("closes");
    assert_eq!(segment.window_title.as_deref(), Some("a.rs"));
}

#[test]
fn the_time_of_the_snapshot_is_not_the_time_of_the_tick() {
    let mut monitor = ActivityMonitor::starting_at(0);
    assert!(monitor.on_sample(&sample("a", "w", 999), 5).is_none());
    let segment = monitor.on_sample(&sample("b", "w", 999), 25).expect("closes");
    assert_eq!(segment.timestamp, 5);
    assert_eq!(segment.duration_seconds, 20);
}
