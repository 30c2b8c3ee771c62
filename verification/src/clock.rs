//! Wall-clock reads.
//!
//! The cache layer never reads the clock itself: every operation takes the
//! current time as an argument, so its freshness contracts are exact. This
//! module is where a caller gets that argument.
use vstd::prelude::*;

verus! {

/// Relies on chrono's `Local::now` (via `timestamp_millis`): the current
/// wall-clock time in milliseconds since the Unix epoch. The result depends
/// on the machine's clock, so nothing is promised of it.
#[verifier::external_body]
fn now_millis() -> i64 {
    chrono::Local::now().timestamp_millis()
}

/// The current wall-clock time in milliseconds since the Unix epoch,
/// clamped below at zero: the cache's freshness arithmetic needs
/// non-negative times, and a clock set before the epoch reads as the epoch.
pub fn current_time_millis() -> (t: i64)
    ensures
        t >= 0,
{
    let t = now_millis();
    if t < 0 {
        0
    } else {
        t
    }
}

} // verus!
