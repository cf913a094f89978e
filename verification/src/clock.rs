//! A monotonic clock read in nanoseconds.

use std::time::Instant;
use vstd::prelude::*;

verus! {

/// `std::time::Instant`, a point on the monotonic clock. Nothing is known of
/// what it holds.
#[verifier::external_type_specification]
#[verifier::external_body]
pub struct ExInstant(std::time::Instant);

/// Reads `std::time::Instant::now`. Nothing is claimed of the reading.
#[verifier::external_body]
fn instant_now() -> Instant {
    Instant::now()
}

/// The nanoseconds that `std::time::Instant::elapsed` reports since
/// `origin`. Nothing is claimed of the reading.
#[verifier::external_body]
fn nanos_since(origin: &Instant) -> u128 {
    origin.elapsed().as_nanos()
}

/// Nanoseconds in a millisecond.
pub const NANOS_PER_MILLI: u128 = 1_000_000;

/// A clock that counts nanoseconds from the moment it was started.
pub struct Clock {
    origin: Instant,
}

impl Clock {
    /// A clock that starts now.
    pub fn start() -> Clock {
        Clock { origin: instant_now() }
    }

    /// The nanoseconds since the clock was started.
    pub fn now(&self) -> u128 {
        nanos_since(&self.origin)
    }
}

/// A duration given in milliseconds, in nanoseconds.
pub fn millis_to_nanos(millis: u64) -> (nanos: u128)
    ensures
        nanos == millis * 1_000_000,
{
    let wide: u128 = millis as u128;
    wide * NANOS_PER_MILLI
}

} // verus!
