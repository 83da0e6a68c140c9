//! Wall-clock time as whole seconds since the Unix epoch.

use vstd::prelude::*;

verus! {

/// Seconds in one day.
pub const DAY_SECONDS: i64 = 86400;

/// A bound above every reading of the clock: chrono's dates end in the year
/// 262142, some 8.3 * 10^12 seconds after the epoch.
pub const LATEST_TIME: i64 = 10_000_000_000_000;

/// Relies on chrono::Utc::now and DateTime::timestamp: the current time in
/// seconds since the epoch. `Utc::now` panics on a system time before the
/// epoch, so a reading is never negative, and a chrono date lies before the
/// year 262143.
#[verifier::external_body]
pub(crate) fn now_seconds() -> (r: i64)
    ensures
        0 <= r <= LATEST_TIME,
{
    chrono::Utc::now().timestamp()
}

} // verus!
