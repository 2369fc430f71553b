//! Wall-clock access.

use vstd::prelude::*;

verus! {

/// The last millisecond a chrono `DateTime<Utc>` can hold: the end of the
/// year 262142, in milliseconds since the Unix epoch.
pub const MAX_CLOCK_MILLIS: i64 = 8_210_266_876_799_999;

/// Relies on `chrono::Utc::now` and `DateTime::timestamp_millis`: the current
/// time as milliseconds since the Unix epoch. `Utc::now` panics on a clock
/// before the epoch, so a returned reading is never negative, and a
/// `DateTime<Utc>` never lies beyond chrono's last representable instant.
#[verifier::external_body]
pub fn now_millis() -> (r: i64)
    ensures
        0 <= r <= MAX_CLOCK_MILLIS,
{
    chrono::Utc::now().timestamp_millis()
}

} // verus!
