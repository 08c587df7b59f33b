//! The monotonic clock of the machine, read in nanoseconds since an origin.
use std::time::Duration;
use std::time::Instant;
use vstd::prelude::*;

verus! {

/// `std::time::Instant`, a point on the monotonic clock. Nothing is known of
/// what it holds.
#[verifier::external_type_specification]
#[verifier::external_body]
pub struct ExInstant(Instant);

/// `Instant::now` reads the monotonic clock. Nothing is claimed of the value.
pub assume_specification[ Instant::now ]() -> Instant;

/// `Instant::elapsed` gives the time from the instant until now, or zero where
/// the clock has gone back. Nothing is claimed of the value.
pub assume_specification[ Instant::elapsed ](origin: &Instant) -> Duration;

/// `Duration::as_nanos` gives the whole duration in nanoseconds. Nothing is
/// claimed of the value.
pub assume_specification[ Duration::as_nanos ](d: &Duration) -> u128;

/// The nanoseconds that have passed on the monotonic clock since `origin`.
/// The reading depends on the machine, so nothing is promised of it.
pub(crate) fn nanos_since(origin: &Instant) -> u128 {
    let d = origin.elapsed();
    d.as_nanos()
}

} // verus!
