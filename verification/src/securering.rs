//! SecureRing's ring topology.

use vstd::prelude::*;
use crate::net::NodeId;

verus! {

/// Logical ring of replicas.
#[derive(Clone, Debug)]
pub struct Ring {
    /// Replicas in ring order.
    pub order: Vec<NodeId>,
}

/// The first position of `id` in `order`, if it occurs.
pub open spec fn first_position(order: Seq<NodeId>, id: NodeId) -> Option<int> {
    if order.contains(id) {
        Some(
            choose|i: int|
                0 <= i < order.len() && order[i] == id && forall|j: int|
                    0 <= j < i ==> order[j] != id,
        )
    } else {
        None
    }
}

impl Ring {
    /// Build a ring.
    pub fn new(order: Vec<NodeId>) -> (r: Self)
        ensures
            r.order@ == order@,
    {
        Ring { order }
    }

    /// The replica after `id` in the ring, wrapping from the last to the
    /// first; `None` when `id` is not on the ring.
    pub fn next(&self, id: NodeId) -> (r: Option<NodeId>)
        ensures
            r == (match first_position(self.order@, id) {
                Some(p) => Some(self.order@[(p + 1) % (self.order@.len() as int)]),
                None => None::<NodeId>,
            }),
    {
        let n = self.order.len();
        let mut pos: usize = 0;
        while pos < n
            invariant
                n == self.order.len(),
                pos <= n,
                forall|j: int| 0 <= j < pos ==> self.order@[j] != id,
            decreases n - pos,
        {
            if self.order[pos] == id {
                let ghost c = first_position(self.order@, id)->0;
                assert(self.order@.contains(id));
                assert(c == pos) by {
                    if c < pos {
                    } else if c > pos {
                    }
                }
                return Some(self.order[(pos + 1) % n]);
            }
            pos = pos + 1;
        }
        assert(!self.order@.contains(id));
        None
    }
}

} // verus!
