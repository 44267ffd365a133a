//! Prime's pre-order check.

use vstd::prelude::*;

verus! {

/// Per-replica pre-order: the pending request ids in the order this
/// replica saw them.
#[derive(Clone, Debug, Default)]
pub struct PreOrder {
    /// Pending request ids in arrival order.
    pub pending: Vec<u32>,
}

/// `p` occurs in `o` in order, possibly with other elements between.
pub open spec fn is_subsequence(p: Seq<u32>, o: Seq<u32>) -> bool
    decreases o.len(),
{
    if p.len() == 0 {
        true
    } else if o.len() == 0 {
        false
    } else if p[0] == o[0] {
        is_subsequence(p.drop_first(), o.drop_first())
    } else {
        is_subsequence(p, o.drop_first())
    }
}

impl PreOrder {
    /// Whether `primary_order` respects this pre-order: the pending ids
    /// appear in it in the same relative order.
    pub fn respects(&self, primary_order: &[u32]) -> (r: bool)
        ensures
            r == is_subsequence(self.pending@, primary_order@),
    {
        let mut idx: usize = 0;
        let mut i: usize = 0;
        assert(self.pending@.skip(0) =~= self.pending@);
        assert(primary_order@.skip(0) =~= primary_order@);
        while i < primary_order.len()
            invariant
                i <= primary_order.len(),
                idx <= self.pending.len(),
                is_subsequence(self.pending@, primary_order@) == is_subsequence(
                    self.pending@.skip(idx as int),
                    primary_order@.skip(i as int),
                ),
            decreases primary_order.len() - i,
        {
            let id = primary_order[i];
            assert(primary_order@.skip(i as int).drop_first() =~= primary_order@.skip(i + 1));
            if idx < self.pending.len() && id == self.pending[idx] {
                assert(self.pending@.skip(idx as int).drop_first() =~= self.pending@.skip(idx + 1));
                idx = idx + 1;
            }
            i = i + 1;
        }
        assert(primary_order@.skip(i as int).len() == 0);
        idx == self.pending.len()
    }
}

} // verus!
