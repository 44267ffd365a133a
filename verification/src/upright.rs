//! UpRight hybrid fault tolerance sizes.

use crate::net::NodeId;
use crate::quorum::lemma_quorums_intersect;
use vstd::prelude::*;

verus! {

/// Replicas needed for `u` Byzantine and `r` crash faults: `2u + r + 1`.
pub fn min_n(u: usize, r: usize) -> (n: usize)
    requires
        2 * u + r + 1 <= usize::MAX,
    ensures
        n == 2 * u + r + 1,
{
    2 * u + r + 1
}

/// UpRight quorum size: `u + r + 1`.
pub fn quorum(u: usize, r: usize) -> (q: usize)
    requires
        u + r + 1 <= usize::MAX,
    ensures
        q == u + r + 1,
{
    u + r + 1
}

/// Two UpRight quorums (`u + r + 1` replicas each) out of `2u + r + 1`
/// replicas share at least `r + 1` replicas, so any two quorums meet.
pub proof fn lemma_quorums_meet(universe: Set<NodeId>, q1: Set<NodeId>, q2: Set<NodeId>, u: int, r: int)
    requires
        u >= 0,
        r >= 0,
        universe.finite(),
        universe.len() == 2 * u + r + 1,
        q1.subset_of(universe),
        q2.subset_of(universe),
        q1.len() >= u + r + 1,
        q2.len() >= u + r + 1,
    ensures
        q1.intersect(q2).len() >= r + 1,
{
    lemma_quorums_intersect(universe, q1, q2, u + r + 1);
}

} // verus!
