//! Threshold quorum systems and the quorum-intersection bound.

use std::collections::BTreeSet;
use vstd::prelude::*;
use vstd::set_lib::*;
use crate::net::NodeId;

verus! {

/// A threshold quorum system: every quorum is a size-`threshold`
/// subset of a universe of `n` processes.
#[derive(Clone, Debug)]
pub struct ThresholdQuorum {
    /// Total number of processes.
    pub n: usize,
    /// Required quorum size.
    pub threshold: usize,
}

/// `2 * threshold - n`, or 0 where that is negative: the fewest
/// processes that two quorums of a threshold system can share.
pub open spec fn threshold_intersection(n: int, threshold: int) -> int {
    if 2 * threshold > n {
        2 * threshold - n
    } else {
        0
    }
}

impl ThresholdQuorum {
    /// Build a threshold quorum.
    pub fn new(n: usize, threshold: usize) -> (q: Self)
        ensures
            q.n == n,
            q.threshold == threshold,
    {
        ThresholdQuorum { n, threshold }
    }

    /// Is `set` a valid quorum: at least `threshold` and at most `n`
    /// members?
    pub fn is_quorum(&self, set: &BTreeSet<NodeId>) -> (r: bool)
        ensures
            r == (set.len() >= self.threshold && set.len() <= self.n),
    {
        set.len() >= self.threshold && set.len() <= self.n
    }

    /// Lower bound on the size of the intersection of any two quorums
    /// under this system: `2 * threshold - n`, saturating at 0.
    pub fn intersection_lower_bound(&self) -> (r: usize)
        requires
            2 * self.threshold <= usize::MAX,
        ensures
            r == threshold_intersection(self.n as int, self.threshold as int),
    {
        (2 * self.threshold).saturating_sub(self.n)
    }

    /// `f`-Byzantine resilient: every pairwise intersection holds more
    /// than `f` processes.
    pub fn is_byzantine_resilient(&self, f: usize) -> (r: bool)
        requires
            2 * self.threshold <= usize::MAX,
        ensures
            r == (threshold_intersection(self.n as int, self.threshold as int) > f),
    {
        self.intersection_lower_bound() > f
    }
}

/// Any two quorums drawn from a universe of `n` processes share at least
/// `|q1| + |q2| - n` of them; so, for a threshold system, at least
/// `threshold_intersection(n, threshold)`.
pub proof fn lemma_quorums_intersect(universe: Set<NodeId>, q1: Set<NodeId>, q2: Set<NodeId>, threshold: int)
    requires
        universe.finite(),
        q1.subset_of(universe),
        q2.subset_of(universe),
        q1.len() >= threshold,
        q2.len() >= threshold,
    ensures
        q1.intersect(q2).len() >= q1.len() + q2.len() - universe.len(),
        q1.intersect(q2).len() >= threshold_intersection(universe.len() as int, threshold),
{
    lemma_len_subset(q1, universe);
    lemma_len_subset(q2, universe);
    lemma_set_intersect_union_lens(q1, q2);
    assert(q1.union(q2).subset_of(universe));
    lemma_len_subset(q1.union(q2), universe);
}

/// With `n = 3f + 1` and quorums of `2f + 1`, any two quorums share
/// `f + 1` processes, so the system tolerates `f` Byzantine faults.
pub proof fn lemma_three_f_plus_one_byzantine(f: int)
    requires
        f >= 0,
    ensures
        threshold_intersection(3 * f + 1, 2 * f + 1) == f + 1,
        threshold_intersection(3 * f + 1, 2 * f + 1) > f,
{
}

/// With `n = 2f + 1` and majority quorums of `f + 1`, quorums share one
/// process: enough against crashes, never more than `f` for `f >= 1`.
pub proof fn lemma_majority_crash_only(f: int)
    requires
        f >= 0,
    ensures
        threshold_intersection(2 * f + 1, f + 1) == 1,
        f >= 1 ==> !(threshold_intersection(2 * f + 1, f + 1) > f),
{
}

} // verus!
