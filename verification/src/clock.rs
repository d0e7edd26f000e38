//! The server clock.

use vstd::prelude::*;

verus! {

/// Relies on chrono's `Utc::now` and `DateTime::timestamp_millis`: the
/// milliseconds since the Unix epoch, clamped below at zero. Nothing is
/// assumed of the clock's reading.
#[verifier::external_body]
pub fn current_time_millis() -> (r: u64)
{
    let ms = chrono::Utc::now().timestamp_millis();
    if ms < 0 {
        0
    } else {
        ms as u64
    }
}

} // verus!
