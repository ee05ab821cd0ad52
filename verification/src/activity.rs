//! Sampling the foreground activity and segmenting the samples.

pub mod key;
pub mod monitor;
pub mod segmentation;
pub mod windows;

use vstd::prelude::*;

verus! {

/// One point-in-time observation of what the user is doing.
#[derive(Debug, Clone)]
pub struct ActivitySnapshot {
    pub app_name: String,
    pub window_title: String,
    pub timestamp: i64,
}

/// A snapshot as a mathematical value.
pub struct ActivitySnapshotView {
    pub app_name: Seq<char>,
    pub window_title: Seq<char>,
    pub timestamp: int,
}

impl View for ActivitySnapshot {
    type V = ActivitySnapshotView;

    open spec fn view(&self) -> ActivitySnapshotView {
        ActivitySnapshotView {
            app_name: self.app_name@,
            window_title: self.window_title@,
            timestamp: self.timestamp as int,
        }
    }
}

/// The foreground activity as the portable library sees it: it has no sampling
/// source of its own, so it reports that nothing is in the foreground.
pub fn get_current_activity() -> (snapshot: Option<ActivitySnapshot>)
    ensures
        snapshot is None,
{
    None
}

} // verus!
