//! Time as whole nanoseconds: the length of a wait, or an instant on a clock whose origin the
//! caller picks.

use vstd::prelude::*;

verus! {

/// A length of time, or an instant on a monotonic clock.
pub type Nanos = u128;

pub const MILLISECOND: Nanos = 1_000_000;

pub const SECOND: Nanos = 1_000_000_000;

/// How long it is from `earlier` to `later`, or zero when `later` comes first.
pub open spec fn since(later: Nanos, earlier: Nanos) -> Nanos {
    if later >= earlier {
        (later - earlier) as Nanos
    } else {
        0
    }
}

/// The smaller of two lengths of time.
pub open spec fn least(a: Nanos, b: Nanos) -> Nanos {
    if a <= b {
        a
    } else {
        b
    }
}

/// Two to the power of `n`.
pub open spec fn doublings(n: nat) -> nat
    decreases n,
{
    if n == 0 {
        1
    } else {
        2 * doublings((n - 1) as nat)
    }
}

/// A length of time times a factor, and no longer than can be told.
pub open spec fn product(base: Nanos, factor: nat) -> Nanos {
    if base * factor <= Nanos::MAX {
        (base * factor) as Nanos
    } else {
        Nanos::MAX
    }
}

/// Doubling more often makes no length of time shorter.
pub proof fn doubling_more_is_longer(base: Nanos, fewer: nat, more: nat)
    requires
        fewer <= more,
    ensures
        doublings(fewer) <= doublings(more),
        product(base, doublings(fewer)) <= product(base, doublings(more)),
    decreases more - fewer,
{
    if fewer < more {
        doubling_more_is_longer(base, fewer, (more - 1) as nat);
    }
    assert(base * doublings(fewer) <= base * doublings(more)) by (nonlinear_arith)
        requires
            doublings(fewer) <= doublings(more),
            base >= 0,
    ;
}

/// Two to the power of `n`, for the powers that fit.
pub fn power_of_two(n: u32) -> (r: u32)
    requires
        n < 32,
    ensures
        r == doublings(n as nat),
{
    proof {
        assert(doublings(31) == 0x8000_0000) by {
            reveal_with_fuel(doublings, 32);
        }
        doubling_more_is_longer(0, n as nat, 31);
    }
    let mut r: u32 = 1;
    let mut i: u32 = 0;
    while i < n
        invariant
            i <= n < 32,
            r == doublings(i as nat),
            doublings(n as nat) < 0x1_0000_0000,
        decreases n - i,
    {
        proof {
            doubling_more_is_longer(0, (i + 1) as nat, n as nat);
        }
        r = r * 2;
        i = i + 1;
    }
    r
}

/// The product of a length of time and a factor.
pub fn scaled(base: Nanos, factor: u32) -> (r: Nanos)
    ensures
        r == product(base, factor as nat),
{
    match base.checked_mul(factor as u128) {
        Some(r) => r,
        None => 0xffff_ffff_ffff_ffff_ffff_ffff_ffff_ffff,
    }
}

pub fn elapsed(later: Nanos, earlier: Nanos) -> (d: Nanos)
    ensures
        d == since(later, earlier),
{
    later.saturating_sub(earlier)
}

pub fn shorter(a: Nanos, b: Nanos) -> (d: Nanos)
    ensures
        d == least(a, b),
{
    if a <= b {
        a
    } else {
        b
    }
}

/// The time since an instant and the instant make up the time, and before it there is none.
pub proof fn time_passes_from_an_instant_on(later: Nanos, earlier: Nanos)
    ensures
        later >= earlier ==> earlier + since(later, earlier) == later,
        later <= earlier ==> since(later, earlier) == 0,
{
}

/// The smaller of two lengths of time is one of them, and neither is smaller.
pub proof fn the_least_is_one_of_the_two(a: Nanos, b: Nanos)
    ensures
        least(a, b) == a || least(a, b) == b,
        least(a, b) <= a && least(a, b) <= b,
{
}

/// A product is exact where it can be told, and else the longest time; a power of two doubles with
/// every step from one on.
pub proof fn a_product_is_exact_or_the_longest_time(base: Nanos, factor: nat, n: nat)
    ensures
        base * factor <= Nanos::MAX ==> product(base, factor) == base * factor,
        base * factor > Nanos::MAX ==> product(base, factor) == Nanos::MAX,
        doublings(0) == 1,
        doublings(n + 1) == doublings(n) + doublings(n),
        MILLISECOND * 1_000 == SECOND,
{
}

} // verus!
