//! The few facts about `std::time::Duration` that the library reads.
use vstd::prelude::*;
use std::time::Duration;

verus! {

/// The length of a duration in whole nanoseconds (what `Duration::as_nanos` gives).
pub uninterp spec fn duration_nanos(d: Duration) -> u128;

/// `Duration::ZERO`, a duration of zero time.
#[verifier::external_body]
pub(crate) fn duration_zero() -> (d: Duration)
    ensures
        duration_nanos(d) == 0,
{
    Duration::ZERO
}

/// `Duration::is_zero`: whether the duration spans no time.
#[verifier::external_body]
pub(crate) fn duration_is_zero(d: Duration) -> (z: bool)
    ensures
        z == (duration_nanos(d) == 0),
{
    d.is_zero()
}

/// `Duration::as_micros`: the whole microseconds that the duration holds.
#[verifier::external_body]
pub(crate) fn duration_as_micros(d: Duration) -> (m: u128)
    ensures
        m == duration_nanos(d) / 1000,
{
    d.as_micros()
}

} // verus!
