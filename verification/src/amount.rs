//! Arithmetic on token amounts and timestamps, carried out by `linera_base`.
//!
//! The ledger holds an amount as its number of attos (`u128`) and a timestamp
//! as its number of microseconds since the epoch (`u64`). The functions below
//! hand these to `linera_base::data_types` and take the result back as an
//! integer. Their contracts are taken on trust from that crate's source.
use linera_base::data_types::{Amount, TimeDelta, Timestamp};
use vstd::prelude::*;

verus! {

/// `a + b`, clamped at the largest amount.
pub open spec fn saturating_sum(a: u128, b: u128) -> u128 {
    if a + b > u128::MAX {
        u128::MAX
    } else {
        (a + b) as u128
    }
}

/// `a - b`, clamped at zero.
pub open spec fn saturating_diff(a: u128, b: u128) -> u128 {
    if a < b {
        0
    } else {
        (a - b) as u128
    }
}

/// The time `lifetime` after `now`, clamped at the latest timestamp.
pub open spec fn expiry(now: u64, lifetime: u64) -> u64 {
    if now + lifetime > u64::MAX {
        u64::MAX
    } else {
        (now + lifetime) as u64
    }
}

/// Calls `Amount::try_add`. Trusted: the call returns the sum of the two
/// amounts where it fits in 128 bits, and an overflow error, given here as
/// `None`, where it does not.
#[verifier::external_body]
pub(crate) fn amount_try_add(a: u128, b: u128) -> (sum: Option<u128>)
    ensures
        a + b <= u128::MAX ==> sum == Some((a + b) as u128),
        a + b > u128::MAX ==> sum.is_none(),
{
    Amount::from_attos(a).try_add(Amount::from_attos(b)).ok().map(u128::from)
}

/// Calls `Amount::saturating_add`. Trusted: the call returns the sum of the
/// two amounts, or the largest amount where the sum does not fit.
#[verifier::external_body]
pub(crate) fn amount_saturating_add(a: u128, b: u128) -> (sum: u128)
    ensures
        sum == saturating_sum(a, b),
{
    u128::from(Amount::from_attos(a).saturating_add(Amount::from_attos(b)))
}

/// Calls `Amount::saturating_sub`. Trusted: the call returns the difference
/// of the two amounts, or zero where the second is the larger.
#[verifier::external_body]
pub(crate) fn amount_saturating_sub(a: u128, b: u128) -> (diff: u128)
    ensures
        diff == saturating_diff(a, b),
{
    u128::from(Amount::from_attos(a).saturating_sub(Amount::from_attos(b)))
}

/// Calls `Timestamp::saturating_add` with a `TimeDelta` of `lifetime`
/// microseconds. Trusted: the call returns the timestamp that lies `lifetime`
/// after `now`, or the latest timestamp where that does not fit in 64 bits.
#[verifier::external_body]
pub(crate) fn timestamp_saturating_add(now: u64, lifetime: u64) -> (later: u64)
    ensures
        later == expiry(now, lifetime),
{
    Timestamp::from(now).saturating_add(TimeDelta::from_micros(lifetime)).micros()
}

} // verus!
