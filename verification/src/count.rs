//! Counters that stop at the largest number.

use vstd::prelude::*;

verus! {

/// `n` and one, or the largest number.
pub open spec fn one_more(n: u32) -> u32 {
    if n == u32::MAX {
        u32::MAX
    } else {
        (n + 1) as u32
    }
}

/// A counter counts one by one and stays at the largest number.
pub proof fn a_counter_counts_and_then_stays(n: u32)
    ensures
        n < u32::MAX ==> one_more(n) == n + 1,
        one_more(u32::MAX) == u32::MAX,
        one_more(n) >= n,
{
}

} // verus!
