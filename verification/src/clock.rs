//! Wall-clock measurements for the phase metrics.

use vstd::prelude::*;
use std::time::Instant;

verus! {

#[verifier::external_type_specification]
#[verifier::external_body]
pub struct ExInstant(Instant);

/// Calls `Instant::now`; nothing is promised of the moment it returns.
#[verifier::external_body]
pub(crate) fn start_clock() -> Instant {
    Instant::now()
}

/// Calls `Instant::elapsed` and returns the whole milliseconds, as `as_millis() as u64`
/// gives them; nothing is promised of the value, which depends on the time.
#[verifier::external_body]
pub(crate) fn elapsed_ms(started: &Instant) -> u64 {
    started.elapsed().as_millis() as u64
}

} // verus!
