//! Flexible Paxos: phase-1 and phase-2 quorums need only intersect
//! each other.

use vstd::prelude::*;
use crate::net::NodeId;

verus! {

/// A pair of quorum families. Each quorum is given by its members.
#[derive(Clone, Debug)]
pub struct FlexibleQuorums {
    /// Allowed phase-1 quorums.
    pub p1: Vec<Vec<NodeId>>,
    /// Allowed phase-2 quorums.
    pub p2: Vec<Vec<NodeId>>,
}

/// Two quorums share a member.
pub open spec fn meet(a: Seq<NodeId>, b: Seq<NodeId>) -> bool {
    exists|x: NodeId| a.contains(x) && b.contains(x)
}

/// Every phase-1 quorum meets every phase-2 quorum.
pub open spec fn all_meet(p1: Seq<Vec<NodeId>>, p2: Seq<Vec<NodeId>>) -> bool {
    forall|i: int, j: int| 0 <= i < p1.len() && 0 <= j < p2.len() ==> meet(p1[i]@, p2[j]@)
}

/// Whether `a` and `b` share a member.
fn quorums_meet(a: &Vec<NodeId>, b: &Vec<NodeId>) -> (r: bool)
    ensures
        r == meet(a@, b@),
{
    let mut i: usize = 0;
    while i < a.len()
        invariant
            i <= a.len(),
            forall|k: int| 0 <= k < i ==> !b@.contains(#[trigger] a@[k]),
        decreases a.len() - i,
    {
        let x = a[i];
        let mut j: usize = 0;
        while j < b.len()
            invariant
                i < a.len(),
                j <= b.len(),
                x == a@[i as int],
                forall|k: int| 0 <= k < j ==> b@[k] != x,
            decreases b.len() - j,
        {
            if b[j] == x {
                assert(a@[i as int] == x);
                assert(b@[j as int] == x);
                assert(a@.contains(x) && b@.contains(x));
                return true;
            }
            j = j + 1;
        }
        assert(!b@.contains(a@[i as int]));
        i = i + 1;
    }
    assert forall|x: NodeId| !(a@.contains(x) && b@.contains(x)) by {
        if a@.contains(x) {
            let k = choose|k: int| 0 <= k < a@.len() && a@[k] == x;
            assert(!b@.contains(a@[k]));
        }
    }
    false
}

impl FlexibleQuorums {
    /// Verify the Flexible Paxos intersection property: every phase-1
    /// quorum intersects every phase-2 quorum.
    pub fn verify_intersection(&self) -> (r: bool)
        ensures
            r == all_meet(self.p1@, self.p2@),
    {
        let mut i: usize = 0;
        while i < self.p1.len()
            invariant
                i <= self.p1.len(),
                forall|a: int, b: int|
                    0 <= a < i && 0 <= b < self.p2@.len() ==> meet(self.p1@[a]@, self.p2@[b]@),
            decreases self.p1.len() - i,
        {
            let mut j: usize = 0;
            while j < self.p2.len()
                invariant
                    i < self.p1.len(),
                    j <= self.p2.len(),
                    forall|a: int, b: int|
                        0 <= a < i && 0 <= b < self.p2@.len() ==> meet(self.p1@[a]@, self.p2@[b]@),
                    forall|b: int| 0 <= b < j ==> meet(self.p1@[i as int]@, self.p2@[b]@),
                decreases self.p2.len() - j,
            {
                if !quorums_meet(&self.p1[i], &self.p2[j]) {
                    return false;
                }
                j = j + 1;
            }
            i = i + 1;
        }
        true
    }
}

} // verus!
