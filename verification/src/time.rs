//! Reading the monotonic clock of the process.

use std::time::Duration;
use std::time::Instant;
use vstd::prelude::*;

verus! {

/// A point of the monotonic clock of `std`. Opaque to the proofs:
/// the library only carries it and measures time from it.
#[verifier::external_type_specification]
#[verifier::external_body]
pub struct ExInstant(Instant);

/// The time between two readings of the clock, in nanoseconds, saturating at
/// zero when `now` comes before `since`.
pub open spec fn elapsed_since(now: nat, since: nat) -> nat {
    if now >= since {
        (now - since) as nat
    } else {
        0
    }
}

/// The same as [`elapsed_since`], on the machine integers that the clock gives.
pub open spec fn elapsed_between(now: u128, since: u128) -> nat {
    elapsed_since(now as nat, since as nat)
}

/// `Instant::now`: the current reading of the clock. The reading depends on
/// the time at which it is taken, so nothing is stated of it.
#[verifier::external_body]
pub(crate) fn instant_now() -> Instant {
    Instant::now()
}

/// `Instant::elapsed`: the time that has passed since `origin`. It depends on
/// the time at which it is called, so nothing is stated of it.
#[verifier::external_body]
fn instant_elapsed(origin: &Instant) -> Duration {
    origin.elapsed()
}

/// `Duration::as_nanos`: the whole number of nanoseconds in `d`. `Duration` is
/// opaque to the proofs, so the number is not stated in terms of `d`.
#[verifier::external_body]
fn duration_as_nanos(d: &Duration) -> u128 {
    d.as_nanos()
}

/// The nanoseconds that have passed since `origin`, read from the clock.
pub(crate) fn nanos_since(origin: &Instant) -> u128 {
    let d = instant_elapsed(origin);
    duration_as_nanos(&d)
}

/// The time between two clock readings, saturating at zero as
/// `Instant::duration_since` does.
pub(crate) fn elapsed_nanos(now: u128, since: u128) -> (r: u128)
    ensures
        r == elapsed_between(now, since),
{
    if now >= since {
        now - since
    } else {
        0
    }
}

} // verus!
