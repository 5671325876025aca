//! Elapsed time, in the whole nanoseconds of `std::time::Duration`.
use vstd::prelude::*;
use std::time::{Duration, Instant};

verus! {

/// What `Duration::as_nanos` returns.
pub uninterp spec fn duration_nanos(d: Duration) -> nat;

/// The largest number of nanoseconds a `Duration` holds.
pub open spec fn max_duration_nanos() -> nat {
    18_446_744_073_709_551_615 * 1_000_000_000 + 999_999_999
}

/// The whole nanoseconds of `d`.
#[verifier::external_body]
pub fn nanos(d: Duration) -> (r: u128)
    ensures
        r as nat == duration_nanos(d),
        r as nat <= max_duration_nanos(),
{
    d.as_nanos()
}

/// The whole seconds of `d`.
pub fn whole_secs(d: Duration) -> (r: u64)
    ensures
        r == duration_nanos(d) / 1_000_000_000,
{
    let n = nanos(d);
    proof {
        assert(n as nat / 1_000_000_000 <= 18_446_744_073_709_551_615) by (nonlinear_arith)
            requires
                n as nat <= 18_446_744_073_709_551_615 * 1_000_000_000 + 999_999_999,
        ;
    }
    (n / 1_000_000_000) as u64
}

/// A fresh `Instant` from the monotonic clock. What it reads is the time.
#[verifier::external_body]
pub(crate) fn clock_now() -> (r: Instant) {
    Instant::now()
}

/// `Instant::elapsed`: the time since `start`. What it reads is the time.
#[verifier::external_body]
pub(crate) fn clock_elapsed(start: &Instant) -> (r: Duration) {
    start.elapsed()
}

#[verifier::external_type_specification]
#[verifier::external_body]
pub struct ExInstant(Instant);

/// `Duration::from_secs`.
#[verifier::external_body]
pub fn from_secs(secs: u64) -> (r: Duration)
    ensures
        duration_nanos(r) == secs * 1_000_000_000,
{
    Duration::from_secs(secs)
}

/// `Duration::from_millis`.
#[verifier::external_body]
pub fn from_millis(millis: u64) -> (r: Duration)
    ensures
        duration_nanos(r) == millis * 1_000_000,
{
    Duration::from_millis(millis)
}

} // verus!
