//! The clocks that scopes and reports are timed by.
use std::time::{Duration, Instant, SystemTime};
use vstd::prelude::*;

verus! {

/// A point in time of the clock that scopes are timed by. Nothing is known of what is in it.
#[verifier::external_type_specification]
#[verifier::external_body]
pub struct ExInstant(Instant);

/// A point in time as the system's clock shows it. Nothing is known of what is in it.
#[verifier::external_type_specification]
#[verifier::external_body]
pub struct ExSystemTime(SystemTime);

/// The current time, by [`Instant::now`]. It depends on when the call is made, so nothing is
/// claimed of it.
pub assume_specification[ Instant::now ]() -> (now: Instant)
;

/// The time that has passed since an instant, by [`Instant::elapsed`]. It depends on when the call
/// is made, so nothing is claimed of it.
pub assume_specification[ Instant::elapsed ](start: &Instant) -> (elapsed: Duration)
;

/// The whole nanoseconds of a duration, by [`Duration::as_nanos`]. A duration is opaque here, so
/// nothing is claimed of their number.
pub assume_specification[ Duration::as_nanos ](duration: &Duration) -> (nanoseconds: u128)
;

} // verus!
