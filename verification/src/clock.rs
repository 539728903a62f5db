//! Trusted access to the monotonic clock.
//!
//! Readings are opaque `std::time::Instant` values; only the distance
//! between two readings, in microseconds, is handed to verified code. No
//! contract speaks of what a reading holds: time is outside the logic, and
//! every caller states what holds whatever the clock returns.

use vstd::prelude::*;
use std::time::Instant;

verus! {

#[verifier::external_type_specification]
#[verifier::external_body]
pub struct ExInstant(Instant);

/// Relies on `std::time::Instant::now`: a reading of the monotonic clock.
#[verifier::external_body]
pub fn instant_now() -> Instant {
    Instant::now()
}

/// Relies on `std::time::Instant::duration_since`: the time elapsed from
/// `earlier` to `later`, in whole microseconds, zero if `earlier` is the
/// later reading, saturating at the largest machine word.
#[verifier::external_body]
pub fn micros_between(earlier: &Instant, later: &Instant) -> u64 {
    u64::try_from(later.duration_since(*earlier).as_micros()).unwrap_or(u64::MAX)
}

} // verus!
