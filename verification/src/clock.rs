//! Trusted access to the monotonic clock.
//!
//! The throughput estimator stamps each recorded chunk with the time elapsed
//! since the previous one. Nothing is assumed about the clock's readings
//! beyond the documented bound on how many milliseconds a `Duration` can
//! hold, so every contract downstream holds for every possible timing.

use vstd::prelude::*;

verus! {

#[verifier::external_type_specification]
#[verifier::external_body]
pub struct ExInstant(std::time::Instant);

/// Upper bound on `Duration::as_millis`: a `Duration` holds at most
/// `u64::MAX` whole seconds plus a sub-second remainder.
pub const MAX_DURATION_MILLIS: u128 = 0xFFFF_FFFF_FFFF_FFFFu128 * 1000 + 999;

/// Relies on `std::time::Instant::now`: an opaque reading of the monotonic
/// clock. Nothing is promised of its value.
#[verifier::external_body]
pub(crate) fn instant_now() -> std::time::Instant {
    std::time::Instant::now()
}

/// Relies on `std::time::Instant::duration_since`: the time elapsed from
/// `earlier` to `later`, or zero if `earlier` is the later reading. Nothing
/// is promised of its value.
#[verifier::external_body]
pub(crate) fn duration_between(earlier: &std::time::Instant, later: &std::time::Instant) -> std::time::Duration {
    later.duration_since(*earlier)
}

/// Relies on `std::time::Duration::as_millis`: the total whole milliseconds
/// of the duration, which its documentation bounds by `u64::MAX` seconds
/// plus at most 999 further milliseconds.
#[verifier::external_body]
pub(crate) fn duration_millis(d: &std::time::Duration) -> (r: u128)
    ensures
        r <= MAX_DURATION_MILLIS,
{
    d.as_millis()
}

} // verus!
