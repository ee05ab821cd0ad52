//! A simulated foreground-window source: it rotates through three
//! applications, one every ten seconds.

use vstd::prelude::*;
use crate::activity::ActivitySnapshot;
use crate::commands::get_current_time;
use crate::text::{trunc_div, trunc_rem};

verus! {

/// Which of the simulated applications is in the foreground at `timestamp`:
/// the index of the ten-second slot, modulo three. Before the epoch the
/// remainder is negative or zero, as the machine's division truncates.
pub open spec fn slot_of(timestamp: int) -> int {
    trunc_rem(trunc_div(timestamp, 10), 3)
}

/// The application shown in the given slot.
pub open spec fn slot_app_name(slot: int) -> Seq<char> {
    if slot == 0 {
        "Visual Studio Code"@
    } else if slot == 1 {
        "Google Chrome"@
    } else if slot == 2 {
        "Terminal"@
    } else {
        "System"@
    }
}

/// The window title shown in the given slot.
pub open spec fn slot_window_title(slot: int) -> Seq<char> {
    if slot == 0 {
        "work-insights-app - Dashboard.tsx"@
    } else if slot == 1 {
        "Work Insights Documentation"@
    } else if slot == 2 {
        "PowerShell"@
    } else {
        "Desktop"@
    }
}

/// The simulated foreground window at `timestamp`.
pub fn active_window_at(timestamp: i64) -> (snapshot: ActivitySnapshot)
    ensures
        snapshot@.timestamp == timestamp,
        snapshot@.app_name == slot_app_name(slot_of(timestamp as int)),
        snapshot@.window_title == slot_window_title(slot_of(timestamp as int)),
{
    let slot: i64 = timestamp / 10;
    let app_index: i64 = slot % 3;
    assert(slot == trunc_div(timestamp as int, 10));
    assert(app_index == slot_of(timestamp as int));
    let (app_name, window_title) = if app_index == 0 {
        ("Visual Studio Code", "work-insights-app - Dashboard.tsx")
    } else if app_index == 1 {
        ("Google Chrome", "Work Insights Documentation")
    } else if app_index == 2 {
        ("Terminal", "PowerShell")
    } else {
        ("System", "Desktop")
    };
    ActivitySnapshot {
        app_name: String::from_str(app_name),
        window_title: String::from_str(window_title),
        timestamp,
    }
}

/// The simulated foreground window now. The clock decides which one it is.
pub fn get_active_window() -> (snapshot: Option<ActivitySnapshot>)
    ensures
        snapshot matches Some(s) && s@.app_name == slot_app_name(slot_of(s@.timestamp))
            && s@.window_title == slot_window_title(slot_of(s@.timestamp)),
{
    let timestamp = get_current_time();
    Some(active_window_at(timestamp))
}

} // verus!
