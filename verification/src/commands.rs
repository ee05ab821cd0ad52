//! The part of the command surface that needs no handle to the store.

use vstd::prelude::*;

verus! {

/// The current time as seconds since the Unix epoch.
///
/// Trusted: calls `chrono::Utc::now().timestamp()`. The result depends on the
/// system clock, so nothing is claimed of it.
#[verifier::external_body]
pub fn get_current_time() -> (now: i64) {
    chrono::Utc::now().timestamp()
}

} // verus!
