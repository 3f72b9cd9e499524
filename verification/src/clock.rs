//! The process's monotonic clock.

use vstd::prelude::*;

verus! {

/// std's reading of the monotonic clock.
#[verifier::external_type_specification]
#[verifier::external_body]
pub struct ExInstant(std::time::Instant);

/// `Instant::now` reads the monotonic clock. Nothing is claimed of the
/// reading.
pub assume_specification[ std::time::Instant::now ]() -> (now: std::time::Instant)
;

/// `Instant::elapsed` measures the time since `start`. Nothing is claimed of
/// the measure.
pub assume_specification[ std::time::Instant::elapsed ](
    start: &std::time::Instant,
) -> (elapsed: std::time::Duration)
;

/// `Duration::as_nanos` gives a duration in whole nanoseconds. Nothing is
/// claimed of the number.
pub assume_specification[ std::time::Duration::as_nanos ](
    duration: &std::time::Duration,
) -> (nanos: u128)
;

} // verus!
