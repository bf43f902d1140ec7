//! Wall-clock access for registration and event timestamps.

use vstd::prelude::*;

verus! {

/// Chrono's datetimes cover roughly +/-262000 years around the Unix epoch,
/// so every timestamp it can produce lies well within 2^43 seconds.
pub const UNIX_TIME_BOUND: i64 = 0x800_0000_0000;

/// Relies on chrono::Utc::now and DateTime::timestamp: whole seconds since
/// the Unix epoch, bounded by chrono's representable date range. The value
/// depends on the wall clock, so nothing more is promised.
#[verifier::external_body]
pub fn now_unix() -> (r: i64)
    ensures
        -UNIX_TIME_BOUND <= r <= UNIX_TIME_BOUND,
{
    chrono::Utc::now().timestamp()
}

} // verus!
