//! Monotonic time, as far as the UI state needs it.
use vstd::prelude::*;
use std::time::{Duration, Instant};

verus! {

#[verifier::external_type_specification]
#[verifier::external_body]
pub struct ExInstant(std::time::Instant);

/// The total length of a duration in nanoseconds, as `Duration::as_nanos`
/// returns it.
pub uninterp spec fn duration_nanos(d: Duration) -> nat;

/// The current instant.
///
/// Trusted: calls `Instant::now`; nothing is stated of the result, which
/// depends on the time of the call.
#[verifier::external_body]
pub(crate) fn now() -> Instant {
    Instant::now()
}

/// The time elapsed since `t`.
///
/// Trusted: calls `Instant::elapsed`; nothing is stated of the result,
/// which depends on the time of the call.
#[verifier::external_body]
pub(crate) fn elapsed_since(t: &Instant) -> Duration {
    t.elapsed()
}

/// Total nanoseconds of a duration.
///
/// Trusted: calls `Duration::as_nanos`, documented as returning the total
/// number of nanoseconds the duration contains.
#[verifier::external_body]
pub(crate) fn nanos_of(d: &Duration) -> (n: u128)
    ensures
        n == duration_nanos(*d),
{
    d.as_nanos()
}

/// Whole seconds of a duration.
///
/// Trusted: calls `Duration::as_secs`, documented as returning the number
/// of whole seconds the duration contains.
#[verifier::external_body]
pub(crate) fn whole_secs_of(d: &Duration) -> (s: u64)
    ensures
        s == duration_nanos(*d) / 1_000_000_000,
{
    d.as_secs()
}

/// A duration of `secs` whole seconds.
///
/// Trusted: calls `Duration::from_secs`, documented as creating a duration
/// of the given number of whole seconds.
#[verifier::external_body]
pub(crate) fn from_secs(secs: u64) -> (d: Duration)
    ensures
        duration_nanos(d) == secs * 1_000_000_000,
{
    Duration::from_secs(secs)
}

/// Cloning an instant copies it (`Instant` is `Copy`).
pub assume_specification[ <std::time::Instant as Clone>::clone ](x: &std::time::Instant) -> (r: std::time::Instant)
    ensures
        r == *x,
;

/// Cloning a duration copies it (`Duration` is `Copy`).
pub assume_specification[ <std::time::Duration as Clone>::clone ](x: &std::time::Duration) -> (r: std::time::Duration)
    ensures
        r == *x,
;

} // verus!
