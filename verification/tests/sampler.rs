use work_insights::activity::get_current_activity;
use work_insights::activity::windows::{active_window_at, get_active_window};

#[test]
fn the_portable_library_sees_nothing_in_the_foreground() {
    assert!(get_current_activity().is_none());
}

#[test]
fn the_simulated_window_changes_every_ten_seconds() {
    let expected = [
        (0, "Visual Studio Code", "work-insights-app - Dashboard.tsx"),
        (9, "Visual Studio Code", "work-insights-app - Dashboard.tsx"),
        (10, "Google Chrome", "Work Insights Documentation"),
        (19, "Google Chrome", "Work Insights Documentation"),
        (20, "Terminal", "PowerShell"),
        (29, "Terminal", "PowerShell"),
        (30, "Visual Studio Code", "work-insights-app - Dashboard.tsx"),
        (1_700_000_000, "Terminal", "PowerShell"),
        (1_700_000_010, "Visual Studio Code", "work-insights-app - Dashboard.tsx"),
        (i64::MAX, "Visual Studio Code", "work-insights-app - Dashboard.tsx"),
    ];
    for (timestamp, app_name, window_title) in expected {
        let snapshot = active_window_at(timestamp);
        assert_eq!(snapshot.timestamp, timestamp);
        assert_eq!(snapshot.app_name, app_name, "at {timestamp}");
        assert_eq!(snapshot.window_title, window_title, "at {timestamp}");
    }
}

#[test]
fn before_the_epoch_the_simulated_window_is_the_desktop_or_the_editor() {
    for timestamp in [-1, -9, -30, -39, i64::MIN] {
        assert_eq!(active_window_at(timestamp).app_name, "Visual Studio Code", "at {timestamp}");
    }
    for timestamp in [-10, -19, -20, -29, -1_700_000_000] {
        let snapshot = active_window_at(timestamp);
        assert_eq!(snapshot.app_name, "System", "at {timestamp}");
        assert_eq!(snapshot.window_title, "Desktop", "at {timestamp}");
    }
}

#[test]
fn the_simulated_window_now_is_the_one_of_its_timestamp() {
    let snapshot = get_active_window().expect("the simulated source always sees a window");
    let again = active_window_at(snapshot.timestamp);
    assert_eq!(snapshot.app_name, again.app_name);
    assert_eq!(snapshot.window_title, again.window_title);
    assert!(snapshot.timestamp > 1_600_000_000);
}
