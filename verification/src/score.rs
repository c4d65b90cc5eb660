//! The scoring rule: a round's first accepted correct answer is worth 1000
//! points, and each later one is worth `max(1, floor(previous * 10 / 11))`.
//! The award therefore depends only on how many correct answers were already
//! credited this round, never on wall-clock timing.

use vstd::prelude::*;

verus! {

/// The award that follows an award of `points`: a roughly ten-elevenths
/// decay, floored at one point.
pub open spec fn next_award(points: nat) -> nat {
    if points * 10 / 11 >= 1 {
        points * 10 / 11
    } else {
        1
    }
}

/// The award for the `n`-th accepted correct answer of a round, counting
/// from zero: 1000 for the first, then `next_award` of the previous award.
pub open spec fn nth_award(n: nat) -> nat
    decreases n,
{
    if n == 0 {
        1000
    } else {
        next_award(nth_award((n - 1) as nat))
    }
}

/// One scoring step, as executed by the host loop: the award that the next
/// correct answer will be worth once one worth `points` has been credited.
pub fn next_points(points: u32) -> (r: u32)
    requires
        points <= 1000,
    ensures
        r == next_award(points as nat),
        1 <= r <= 1000,
{
    let decayed = points * 10 / 11;
    if decayed >= 1 {
        decayed
    } else {
        1
    }
}

/// A single decay step never raises the award and never drops it below one
/// point.
pub proof fn lemma_next_award_le(points: nat)
    requires
        1 <= points,
    ensures
        1 <= next_award(points) <= points,
{
    assert(points * 10 / 11 <= points) by (nonlinear_arith);
}

/// Point awards are strictly determined by arrival position and never
/// increase along a round: the `n`-th accepted correct answer is worth
/// `nth_award(n)`, the sequence starts at 1000, and each later award is no
/// greater than the one before it yet always at least one point.
pub proof fn lemma_awards_nonincreasing(n: nat)
    ensures
        nth_award(0) == 1000,
        1 <= nth_award(n + 1) <= nth_award(n) <= 1000,
    decreases n,
{
    if n == 0 {
        lemma_next_award_le(1000);
    } else {
        lemma_awards_nonincreasing((n - 1) as nat);
        lemma_next_award_le(nth_award(n));
    }
}

} // verus!
