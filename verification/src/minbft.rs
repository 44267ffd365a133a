//! MinBFT sizes, with trusted hardware on every replica.

use vstd::prelude::*;

verus! {

/// Replicas needed for `f` faults: `2f + 1`.
pub fn min_n(f: usize) -> (r: usize)
    requires
        2 * f + 1 <= usize::MAX,
    ensures
        r == 2 * f + 1,
{
    2 * f + 1
}

/// MinBFT quorum size: `f + 1`.
pub fn quorum(f: usize) -> (r: usize)
    requires
        f + 1 <= usize::MAX,
    ensures
        r == f + 1,
{
    f + 1
}

} // verus!
