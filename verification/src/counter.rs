//! Counters for observation: they go up and never come down, and stay at the
//! largest value that they can show once it is reached.

use vstd::prelude::*;

verus! {

/// `count` and `more` together, held at the largest value of the counter once
/// that is reached.
pub open spec fn plus(count: u64, more: int) -> u64 {
    if count + more <= u64::MAX {
        (count + more) as u64
    } else {
        u64::MAX
    }
}

/// Counts one more.
pub fn bump(count: u64) -> (next: u64)
    ensures
        next == plus(count, 1),
{
    if count < u64::MAX {
        count + 1
    } else {
        count
    }
}

/// Counts `more` more.
pub fn advance(count: u64, more: usize) -> (next: u64)
    ensures
        next == plus(count, more as int),
{
    let more: u64 = more as u64;
    if u64::MAX - count >= more {
        count + more
    } else {
        u64::MAX
    }
}

/// Counting in two goes comes to the same as counting in one, and a counter
/// never goes down.
pub proof fn lemma_plus_adds_up(count: u64, first: int, second: int)
    requires
        0 <= first,
        0 <= second,
    ensures
        plus(plus(count, first), second) == plus(count, first + second),
        plus(count, first) >= count,
        plus(count, 0) == count,
{
}

} // verus!
