//! Fast Paxos quorum sizes.

use crate::net::NodeId;
use crate::quorum::lemma_quorums_intersect;
use vstd::prelude::*;

verus! {

/// The classic (majority) quorum size for `n` acceptors.
pub fn classic_quorum(n: usize) -> (r: usize)
    ensures
        r == n / 2 + 1,
{
    n / 2 + 1
}

/// The fast quorum size for `f` tolerated faults: `2f + 1`.
pub fn fast_quorum(_n: usize, f: usize) -> (r: usize)
    requires
        2 * f + 1 <= usize::MAX,
    ensures
        r == 2 * f + 1,
{
    2 * f + 1
}

/// The fewest acceptors that a classic and a fast quorum share:
/// `classic + fast - n`.
pub fn intersection_lower_bound(n: usize, f: usize) -> (r: usize)
    requires
        2 * f + 1 <= usize::MAX,
        n / 2 + 1 + 2 * f + 1 <= usize::MAX,
        n <= n / 2 + 1 + 2 * f + 1,
    ensures
        r == (n / 2 + 1) + (2 * f + 1) - n,
{
    let qc = classic_quorum(n);
    let qf = fast_quorum(n, f);
    qc + qf - n
}

/// Any classic quorum and any fast quorum drawn from the same `n`
/// acceptors share at least `intersection_lower_bound(n, f)` of them.
pub proof fn lemma_classic_fast_intersect(universe: Set<NodeId>, classic: Set<NodeId>, fast: Set<NodeId>, f: int)
    requires
        universe.finite(),
        f >= 0,
        classic.subset_of(universe),
        fast.subset_of(universe),
        classic.len() >= universe.len() / 2 + 1,
        fast.len() >= 2 * f + 1,
    ensures
        classic.intersect(fast).len() >= (universe.len() / 2 + 1) + (2 * f + 1) - universe.len(),
{
    lemma_quorums_intersect(universe, classic, fast, 0);
}

} // verus!
