use vstd::prelude::*;

verus! {

/// Relies on chrono's `Utc::now` and `timestamp_millis`: the wall-clock time
/// in milliseconds since the Unix epoch, cast to `u64`. Nothing is promised
/// of the value: the clock alone decides it, and every function that takes a
/// time works for any value.
#[verifier::external_body]
pub fn now_ms() -> u64 {
    chrono::Utc::now().timestamp_millis() as u64
}

/// Relies on chrono's `Utc::now` and `timestamp_subsec_nanos`: the
/// sub-second part of the current time, used only to seed the word game's
/// shuffle. Nothing is promised of the value.
#[verifier::external_body]
pub fn time_entropy() -> u64 {
    chrono::Utc::now().timestamp_subsec_nanos() as u64
}

} // verus!
