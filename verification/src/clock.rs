//! Monotonic time, as `std::time::Instant` gives it.
//!
//! Nothing is stated of the instants these calls read: they depend on when
//! the calls are made. The logic that reads them states what holds whatever
//! they return. The time between two instants and a duration's length in
//! nanoseconds are named: they depend on their arguments alone.

use vstd::prelude::*;
use std::time::{Duration, Instant};

verus! {

#[verifier::external_type_specification]
#[verifier::external_body]
pub struct ExInstant(Instant);

/// The current instant (`Instant::now`).
#[verifier::external_body]
pub(crate) fn instant_now() -> Instant {
    Instant::now()
}

/// The time since `start` (`Instant::elapsed`).
#[verifier::external_body]
pub(crate) fn elapsed_since(start: &Instant) -> Duration {
    start.elapsed()
}

/// The time from `earlier` to `later`, as `Instant::duration_since` gives
/// it (zero when `earlier` is the later one); it depends on the two
/// instants alone.
pub uninterp spec fn time_between(later: Instant, earlier: Instant) -> Duration;

/// The time from `earlier` to `later` (`Instant::duration_since`).
#[verifier::external_body]
pub(crate) fn duration_between(later: &Instant, earlier: &Instant) -> (r: Duration)
    ensures
        r == time_between(*later, *earlier),
{
    later.duration_since(*earlier)
}

/// The length of a duration in whole nanoseconds, as `Duration::as_nanos`
/// gives it; a duration is a count of seconds and nanoseconds, so this
/// depends on it alone.
pub uninterp spec fn nanos_of(d: Duration) -> u128;

/// The length of `d` in whole nanoseconds (`Duration::as_nanos`).
#[verifier::external_body]
pub(crate) fn duration_nanos(d: &Duration) -> (r: u128)
    ensures
        r == nanos_of(*d),
{
    d.as_nanos()
}

} // verus!
