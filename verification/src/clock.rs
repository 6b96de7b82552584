//! The wall clock used to time a scan.  The readings depend on the clock,
//! so nothing is assumed about the values they return.

use vstd::prelude::*;
use std::time::Instant;

verus! {

#[verifier::external_type_specification]
#[verifier::external_body]
pub struct ExInstant(Instant);

/// Relies on std::time::Instant::now for a reading of the monotonic clock.
#[verifier::external_body]
pub(crate) fn instant_now() -> Instant {
    Instant::now()
}

/// Relies on Instant::elapsed and Duration::as_millis for the wall-clock
/// milliseconds since `start`, saturated into a u64.
#[verifier::external_body]
pub(crate) fn elapsed_millis(start: &Instant) -> u64 {
    start.elapsed().as_millis() as u64
}

} // verus!
