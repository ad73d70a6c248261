//! The monotonic clock of `std`, as far as request timing needs it. Nothing is
//! claimed of what the clock returns.

use std::time::Duration;
use std::time::Instant;
use vstd::prelude::*;

verus! {

/// `std::time::Instant`: a moment on the monotonic clock, of which nothing
/// can be read here.
#[verifier::external_type_specification]
#[verifier::external_body]
pub struct ExInstant(Instant);

/// `Instant::now`: some instant; nothing more is known of it.
pub assume_specification[ Instant::now ]() -> Instant;

/// `Instant::elapsed`: the time since the instant was taken (zero where the
/// clock has gone back); nothing is known of its length.
pub assume_specification[ Instant::elapsed ](start: &Instant) -> Duration;

/// `Duration::as_nanos`: the duration in whole nanoseconds.
pub assume_specification[ Duration::as_nanos ](duration: &Duration) -> u128;

} // verus!
