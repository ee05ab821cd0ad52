use work_insights::activity::monitor::{ActivityMonitor, TICK_INTERVAL_SECS};
use work_insights::activity::ActivitySnapshot;

fn sample(app: &str) -> Option<ActivitySnapshot> {
    Some(ActivitySnapshot {
        app_name: app.to_string(),
        window_title: "window".to_string(),
        timestamp: 0,
    })
}

#[test]
fn a_new_monitor_is_stopped() {
    let monitor = ActivityMonitor::starting_at(0);
    assert!(!monitor.is_running());
    let by_the_clock = ActivityMonitor::new();
    assert!(!by_the_clock.is_running());
}

#[test]
fn start_sets_the_flag_and_asks_for_one_worker() {
    let mut monitor = ActivityMonitor::starting_at(0);
    assert!(monitor.start());
    assert!(monitor.is_running());
}

#[test]
fn start_twice_is_start_once() {
    let mut monitor = ActivityMonitor::starting_at(0);
    assert!(monitor.start());
    assert!(!monitor.start());
    assert!(monitor.is_running());
    assert!(monitor.should_continue());
}

#[test]
fn stop_twice_is_stop_once() {
    let mut monitor = ActivityMonitor::starting_at(0);
    monitor.stop();
    assert!(!monitor.is_running());
    assert!(monitor.start());
    monitor.stop();
    assert!(!monitor.is_running());
    monitor.stop();
    assert!(!monitor.is_running());
    assert!(!monitor.should_continue());
}

#[test]
fn the_worker_ends_when_it_sees_the_flag_cleared() {
    let mut monitor = ActivityMonitor::starting_at(0);
    assert!(monitor.start());
    assert!(monitor.should_continue());
    monitor.stop();
    assert!(!monitor.should_continue());
    assert!(monitor.start(), "the old worker has ended, so a new one is due");
}

#[test]
fn a_restart_before_the_worker_looks_keeps_the_one_worker() {
    let mut monitor = ActivityMonitor::starting_at(0);
    assert!(monitor.start());
    monitor.stop();
    assert!(!monitor.start(), "the worker has not seen the flag cleared");
    assert!(monitor.should_continue());
}

#[test]
fn stop_leaves_the_open_segment_open() {
    let mut monitor = ActivityMonitor::starting_at(0);
    assert!(monitor.start());
    assert!(monitor.on_sample(&sample("a"), 10).is_none());
    monitor.stop();
    assert!(!monitor.should_continue());
    assert!(monitor.start());
    let segment = monitor.on_sample(&sample("b"), 50).expect("recovered on the next transition");
    assert_eq!(segment.app_name, "a");
    assert_eq!(segment.timestamp, 10);
    assert_eq!(segment.duration_seconds, 40);
}

#[test]
fn start_and_stop_do_not_touch_the_engine() {
    let mut monitor = ActivityMonitor::starting_at(0);
    assert!(monitor.on_sample(&sample("a"), 0).is_none());
    monitor.start();
    monitor.start();
    monitor.stop();
    monitor.should_continue();
    assert!(monitor.on_sample(&sample("a"), 30).is_none());
    let segment = monitor.on_sample(&None, 40).expect("closes");
    assert_eq!(segment.timestamp, 0);
    assert_eq!(segment.duration_seconds, 40);
}

#[test]
fn the_tick_is_ten_seconds() {
    assert_eq!(TICK_INTERVAL_SECS, 10);
}
