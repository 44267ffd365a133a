//! EPaxos quorum sizes.

use vstd::prelude::*;

verus! {

/// EPaxos fast quorum size: `f + floor(f / 2) + 1`.
pub fn fast_quorum(n: usize, f: usize) -> (r: usize)
    requires
        f + f / 2 + 1 <= usize::MAX,
    ensures
        r == f + f / 2 + 1,
{
    let _ = n;
    f + f / 2 + 1
}

/// EPaxos slow quorum size (a majority).
pub fn slow_quorum(n: usize) -> (r: usize)
    ensures
        r == n / 2 + 1,
{
    n / 2 + 1
}

} // verus!
