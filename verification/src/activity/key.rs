//! Activity keys: the identity of "what is being done", an application and a
//! window title. Two keys are the same where both parts are the same.

use vstd::prelude::*;
use crate::activity::{ActivitySnapshot, ActivitySnapshotView};

verus! {

/// The identity of an activity.
#[derive(Debug, Clone)]
pub struct ActivityKey {
    pub app_name: String,
    pub window_title: String,
}

/// A key as a mathematical value.
pub struct ActivityKeyView {
    pub app_name: Seq<char>,
    pub window_title: Seq<char>,
}

impl View for ActivityKey {
    type V = ActivityKeyView;

    open spec fn view(&self) -> ActivityKeyView {
        ActivityKeyView { app_name: self.app_name@, window_title: self.window_title@ }
    }
}

/// The key of the activity that a snapshot shows.
pub open spec fn key_of(snapshot: ActivitySnapshotView) -> ActivityKeyView {
    ActivityKeyView { app_name: snapshot.app_name, window_title: snapshot.window_title }
}

/// The view of an optional key.
pub open spec fn opt_key_view(key: Option<ActivityKey>) -> Option<ActivityKeyView> {
    match key {
        Some(key) => Some(key@),
        None => None,
    }
}

/// The key of a sample; `None` where nothing is in the foreground.
pub open spec fn sample_key(sample: Option<ActivitySnapshotView>) -> Option<ActivityKeyView> {
    match sample {
        Some(snapshot) => Some(key_of(snapshot)),
        None => None,
    }
}

/// Keys are told apart by their parts: two keys are the same exactly where
/// they name the same application and the same window title.
pub proof fn lemma_keys_are_structural(a: ActivitySnapshotView, b: ActivitySnapshotView)
    ensures
        key_of(a) == key_of(b) <==> a.app_name == b.app_name && a.window_title == b.window_title,
{
}

impl ActivityKey {
    /// The key of the activity that a snapshot shows.
    pub fn of(snapshot: &ActivitySnapshot) -> (key: ActivityKey)
        ensures
            key@ == key_of(snapshot@),
    {
        ActivityKey {
            app_name: snapshot.app_name.clone(),
            window_title: snapshot.window_title.clone(),
        }
    }

    /// Whether this key and `other` are the same.
    pub fn same_as(&self, other: &ActivityKey) -> (same: bool)
        ensures
            same == (self@ == other@),
    {
        self.app_name.eq(&other.app_name) && self.window_title.eq(&other.window_title)
    }
}

} // verus!
