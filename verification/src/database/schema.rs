//! The settings that the store keeps as pairs of strings: the ones it starts
//! with, and how the setting that starts tracking by itself is read.

use vstd::prelude::*;
use crate::text::same_text;

verus! {

/// The key of the setting that says whether tracking starts with the process.
pub const AUTO_START_TRACKING: &'static str = "auto_start_tracking";

/// A setting as a mathematical value: its key and its value.
pub open spec fn setting_view(setting: (String, String)) -> (Seq<char>, Seq<char>) {
    (setting.0@, setting.1@)
}

/// The settings as mathematical values.
pub open spec fn setting_views(settings: Seq<(String, String)>) -> Seq<(Seq<char>, Seq<char>)> {
    settings.map_values(|s: (String, String)| setting_view(s))
}

/// The settings that a new store starts with.
pub open spec fn initial_settings() -> Seq<(Seq<char>, Seq<char>)> {
    seq![
        ("tracking_enabled"@, "true"@),
        ("idle_timeout_seconds"@, "300"@),
        ("data_retention_days"@, "30"@),
        ("blocked_apps"@, "[]"@),
    ]
}

/// The settings that a new store starts with; a store that already holds a
/// key keeps the value it has.
pub fn default_settings() -> (settings: Vec<(String, String)>)
    ensures
        setting_views(settings@) == initial_settings(),
{
    let mut settings: Vec<(String, String)> = Vec::new();
    settings.push((String::from_str("tracking_enabled"), String::from_str("true")));
    settings.push((String::from_str("idle_timeout_seconds"), String::from_str("300")));
    settings.push((String::from_str("data_retention_days"), String::from_str("30")));
    settings.push((String::from_str("blocked_apps"), String::from_str("[]")));
    assert(setting_views(settings@) =~= initial_settings());
    settings
}

/// Whether tracking starts with the process, given what the store said of the
/// setting: it does unless the store holds a value other than `true`. A store
/// that cannot be read and a store without the setting both start tracking.
pub open spec fn auto_start_of<E>(setting: Result<Option<String>, E>) -> bool {
    match setting {
        Ok(Some(value)) => value@ == "true"@,
        _ => true,
    }
}

/// Whether tracking starts with the process, given what the store said of the
/// `auto_start_tracking` setting.
pub fn should_auto_start<E>(setting: &Result<Option<String>, E>) -> (start: bool)
    ensures
        start == auto_start_of(*setting),
{
    match setting {
        Ok(Some(value)) => same_text(value.as_str(), "true"),
        _ => true,
    }
}

} // verus!
