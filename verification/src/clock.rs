use vstd::prelude::*;

use std::time::{Duration, Instant};

verus! {

#[verifier::external_type_specification]
#[verifier::external_body]
pub struct ExInstant(std::time::Instant);

/// Calls `Instant::now`. The reading comes from the machine's clock, so
/// nothing is promised of it.
#[verifier::external_body]
pub(crate) fn clock_now() -> (r: Instant) {
    Instant::now()
}

/// Calls `Instant::elapsed`. The reading comes from the machine's clock, so
/// nothing is promised of it.
#[verifier::external_body]
pub(crate) fn clock_elapsed(start: &Instant) -> (r: Duration) {
    start.elapsed()
}

} // verus!
