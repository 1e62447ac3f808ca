//! The time of the machine.

use vstd::prelude::*;

verus! {

/// The current time in microseconds since the Unix epoch, as
/// `chrono::Utc::now` reads it and `DateTime::timestamp_micros` counts it.
/// The value depends on the clock, so nothing is claimed of it.
#[verifier::external_body]
pub(crate) fn now_micros() -> i64 {
    chrono::Utc::now().timestamp_micros()
}

/// The current time in seconds since the Unix epoch, as `chrono::Local::now`
/// reads it and `DateTime::timestamp` counts it. The value depends on the
/// clock, so nothing is claimed of it.
#[verifier::external_body]
pub(crate) fn now_seconds() -> i64 {
    chrono::Local::now().timestamp()
}

} // verus!
