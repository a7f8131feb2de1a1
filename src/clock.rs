//! The current time, from the system clock.

use vstd::prelude::*;

verus! {

/// Relies on chrono's `Utc::now` and `DateTime::timestamp_micros`: the
/// current UTC time as microseconds since the Unix epoch. Nothing is known
/// of the value: it is whatever the clock reads.
#[verifier::external_body]
pub(crate) fn now_micros() -> (r: i64) {
    chrono::Utc::now().timestamp_micros()
}

} // verus!
