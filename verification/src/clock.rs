//! The monotonic clock that stamps touch events.

use std::time::Duration;
use std::time::Instant;
use vstd::prelude::*;

verus! {

/// Makes `std::time::Instant` known as a type whose inside is not looked
/// at.
#[verifier::external_type_specification]
#[verifier::external_body]
pub struct ExInstant(Instant);

/// Calls `Instant::now`. Nothing is claimed of the instant that comes back.
#[verifier::external_body]
pub(crate) fn instant_now() -> (t: Instant) {
    Instant::now()
}

/// Calls `Instant::elapsed`. Nothing is claimed of the time that has passed.
#[verifier::external_body]
pub(crate) fn instant_elapsed(start: &Instant) -> (d: Duration) {
    start.elapsed()
}

/// Calls `Duration::as_millis`. Nothing is claimed of the count.
#[verifier::external_body]
pub(crate) fn duration_millis(d: &Duration) -> (ms: u128) {
    d.as_millis()
}

/// The milliseconds from `a` to `b`; zero where `b` lies before `a`.
pub open spec fn elapsed(a: u64, b: u64) -> u64 {
    if b >= a {
        (b - a) as u64
    } else {
        0
    }
}

/// A millisecond count as 64 bits, held at the largest value where it does
/// not fit.
pub open spec fn saturate_ms(ms: u128) -> u64 {
    if ms > u64::MAX {
        u64::MAX
    } else {
        ms as u64
    }
}

/// Computes `elapsed(a, b)`.
pub fn elapsed_ms(a: u64, b: u64) -> (d: u64)
    ensures
        d == elapsed(a, b),
{
    if b >= a {
        b - a
    } else {
        0
    }
}

/// Computes `saturate_ms(ms)`.
pub fn clamp_ms(ms: u128) -> (t: u64)
    ensures
        t == saturate_ms(ms),
{
    if ms > u64::MAX as u128 {
        u64::MAX
    } else {
        ms as u64
    }
}

/// Reads the clock: the milliseconds since `start`, whatever they are.
pub fn millis_since(start: &Instant) -> (t: u64) {
    let d = instant_elapsed(start);
    clamp_ms(duration_millis(&d))
}

} // verus!
