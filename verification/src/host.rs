//! What the library takes on trust from outside the verified code: the
//! random-number generator and the clock.

use std::time::{Duration, Instant};
use vstd::prelude::*;

verus! {

/// `std::time::Instant`, a point on the monotonic clock. Nothing of its
/// inside is known to the verified code, which only carries such values from
/// one clock call to the next.
#[verifier::external_type_specification]
#[verifier::external_body]
pub struct ExInstant(Instant);

/// Calls `fastrand::u8` with the full range, which draws the next byte from
/// the generator that `fastrand` keeps for the current thread. Nothing is
/// claimed of the byte: any value may come back, and two calls may differ.
#[verifier::external_body]
pub(crate) fn random_byte() -> (byte: u8) {
    fastrand::u8(..)
}

/// Calls `Instant::now`, which reads the monotonic clock. Nothing is claimed
/// of the instant that comes back.
#[verifier::external_body]
pub(crate) fn clock_now() -> (now: Instant) {
    Instant::now()
}

/// Calls `Instant::duration_since`, the time that passed from `earlier` to
/// `later` (zero if `earlier` is in fact the later one). Nothing is claimed of
/// the duration that comes back.
#[verifier::external_body]
pub(crate) fn clock_between(earlier: &Instant, later: &Instant) -> (elapsed: Duration) {
    later.duration_since(*earlier)
}

/// Calls `Duration::as_nanos`, the whole number of nanoseconds in a
/// duration. A duration is opaque to the verified code, so nothing is claimed
/// of the number.
#[verifier::external_body]
pub(crate) fn duration_nanos(duration: &Duration) -> (nanos: u128) {
    duration.as_nanos()
}

} // verus!
