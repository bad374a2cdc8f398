//! The daemon's clock: wall-clock time in milliseconds.
//!
//! Registry and session bookkeeping take timestamps as explicit arguments so
//! that every time-dependent rule is checked for arbitrary clock values; this
//! module only supplies the live clock reading for callers that want one.

use vstd::prelude::*;

verus! {

/// Relies on chrono's `Utc::now` and `DateTime::timestamp_millis`: the number
/// of milliseconds since the Unix epoch. Nothing is promised of the value; it
/// depends on the machine's clock.
#[verifier::external_body]
fn now_millis_raw() -> i64 {
    chrono::Utc::now().timestamp_millis()
}

/// The current wall-clock time in milliseconds since the Unix epoch, clamped
/// below at zero so that bookkeeping can use unsigned timestamps.
pub fn current_time_millis() -> u64 {
    let raw = now_millis_raw();
    if raw < 0 {
        0
    } else {
        raw as u64
    }
}

} // verus!
