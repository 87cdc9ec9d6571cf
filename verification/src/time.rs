//! Points in time, in nanoseconds since the epoch.

use vstd::prelude::*;

verus! {

pub const NANOS_PER_SEC: u128 = 1000000000;

pub const NANOS_PER_MILLI: u128 = 1000000;

/// The whole seconds up to a point in time.
pub open spec fn secs(now: u128) -> u64 {
    if now / NANOS_PER_SEC < u64::MAX {
        (now / NANOS_PER_SEC) as u64
    } else {
        u64::MAX
    }
}

/// The whole milliseconds up to a point in time.
pub open spec fn millis(now: u128) -> u64 {
    if now / NANOS_PER_MILLI < u64::MAX {
        (now / NANOS_PER_MILLI) as u64
    } else {
        u64::MAX
    }
}

/// The sum, or the greatest number if it is more.
pub open spec fn saturating_sum(a: u64, b: u64) -> u64 {
    if a + b < u64::MAX {
        (a + b) as u64
    } else {
        u64::MAX
    }
}

/// The product, or the greatest number if it is more.
pub open spec fn saturating_product(a: u64, b: u64) -> u64 {
    if a * b < u64::MAX {
        (a * b) as u64
    } else {
        u64::MAX
    }
}

pub fn secs_of(now: u128) -> (r: u64)
    ensures
        r == secs(now),
{
    let n: u128 = now / NANOS_PER_SEC;
    if n < 0xffff_ffff_ffff_ffff {
        n as u64
    } else {
        u64::MAX
    }
}

pub fn millis_of(now: u128) -> (r: u64)
    ensures
        r == millis(now),
{
    let n: u128 = now / NANOS_PER_MILLI;
    if n < 0xffff_ffff_ffff_ffff {
        n as u64
    } else {
        u64::MAX
    }
}

pub fn plus(a: u64, b: u64) -> (r: u64)
    ensures
        r == saturating_sum(a, b),
{
    a.saturating_add(b)
}

pub fn times(a: u64, b: u64) -> (r: u64)
    ensures
        r == saturating_product(a, b),
{
    match a.checked_mul(b) {
        Some(product) => product,
        None => u64::MAX,
    }
}

/// A point in time lies less than `max` after another, and not before it.
pub open spec fn younger_than(now: u128, then: u128, max: u128) -> bool {
    then <= now && now - then < max
}

pub fn is_younger_than(now: u128, at: u128, max: u128) -> (r: bool)
    ensures
        r == younger_than(now, at, max),
{
    at <= now && now - at < max
}

/// Times in seconds and milliseconds are rounded down, and sums and products are exact, as far as
/// they can be held.
pub proof fn law_times_and_sums(now: u128, a: u64, b: u64)
    ensures
        now / 1000000000 <= u64::MAX ==> secs(now) == now / 1000000000,
        now / 1000000 <= u64::MAX ==> millis(now) == now / 1000000,
        a + b <= u64::MAX ==> saturating_sum(a, b) == a + b,
        a + b > u64::MAX ==> saturating_sum(a, b) == u64::MAX,
        a * b <= u64::MAX ==> saturating_product(a, b) == a * b,
        a * b > u64::MAX ==> saturating_product(a, b) == u64::MAX,
{
}

/// A time is younger than an age if it is not in the future and less than the age ago.
pub proof fn law_ages(now: u128, then: u128, max: u128)
    ensures
        younger_than(now, then, max) <==> then <= now && now < then + max,
{
}

} // verus!
