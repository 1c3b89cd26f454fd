//! The wall clock. The ledger never reads it directly: every balance
//! computation takes the current instant as a value, and this module is the
//! one place that produces that value.

use vstd::prelude::*;

use crate::allowances::MAX_TIME_MS;

verus! {

/// Relies on chrono's `Utc::now` and `DateTime::timestamp_millis`: the
/// current wall-clock instant as non-leap milliseconds since the Unix epoch.
/// Nothing is assumed of the value; wall clocks move as they please.
#[verifier::external_body]
fn now_timestamp_millis() -> i64 {
    chrono::Utc::now().timestamp_millis()
}

/// The current instant in milliseconds since the Unix epoch, clamped into
/// the ledger's representable horizon.
pub fn current_time_millis() -> (r: u64)
    ensures
        r <= MAX_TIME_MS,
{
    let t = now_timestamp_millis();
    if t < 0 {
        0
    } else if t as u64 > MAX_TIME_MS {
        MAX_TIME_MS
    } else {
        t as u64
    }
}

} // verus!
