use std::time::Instant;
use vstd::prelude::*;

verus! {

#[verifier::external_type_specification]
#[verifier::external_body]
pub struct ExInstant(Instant);

/// Calls `Instant::now`, which reads the clock. Nothing is claimed of the
/// moment that comes back.
#[verifier::external_body]
pub(crate) fn start_clock() -> Instant {
    Instant::now()
}

/// Calls `Instant::elapsed`, which reads the clock, and gives the time
/// that has passed since `start` in nanoseconds. Nothing is claimed of
/// the number.
#[verifier::external_body]
pub(crate) fn nanos_since(start: &Instant) -> u128 {
    start.elapsed().as_nanos()
}

} // verus!
