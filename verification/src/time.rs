//! `std::time::Duration` values, made through std.
use vstd::prelude::*;
use std::time::Duration;

verus! {

/// `Duration::from_millis(ms)`.
pub uninterp spec fn duration_of_millis(ms: nat) -> Duration;

/// `Duration::from_secs(s)`.
pub uninterp spec fn duration_of_secs(s: nat) -> Duration;

/// `Duration` is `Copy`: its `clone` gives the same value.
pub assume_specification[ <Duration as Clone>::clone ](d: &Duration) -> (res: Duration)
    ensures
        res == *d,
;

/// `Duration::from_millis`.
#[verifier::external_body]
pub(crate) fn duration_from_millis(ms: u64) -> (res: Duration)
    ensures
        res == duration_of_millis(ms as nat),
{
    Duration::from_millis(ms)
}

/// `Duration::from_secs`.
#[verifier::external_body]
pub(crate) fn duration_from_secs(s: u64) -> (res: Duration)
    ensures
        res == duration_of_secs(s as nat),
{
    Duration::from_secs(s)
}

} // verus!
