//! Counters that stop at the largest value instead of wrapping round.

use vstd::prelude::*;

verus! {

/// The sum of a count and what is added to it, or the largest value if the
/// sum is beyond it.
pub open spec fn capped_sum(count: u64, more: nat) -> u64 {
    if count + more > u64::MAX {
        u64::MAX
    } else {
        (count + more) as u64
    }
}

/// Adds to a count, up to the largest value.
pub fn add_capped(count: u64, more: usize) -> (sum: u64)
    ensures
        sum == capped_sum(count, more as nat),
{
    let more: u64 = more as u64;
    if more > u64::MAX - count {
        u64::MAX
    } else {
        count + more
    }
}

} // verus!
