//! Atlas quorum sizes.

use vstd::prelude::*;

verus! {

/// Atlas fast quorum size: `f + ceil(f / 2) + floor(c / 2)`.
pub fn fast_quorum(f: usize, c: usize) -> (r: usize)
    requires
        f + (f + 1) / 2 + c / 2 <= usize::MAX,
    ensures
        r == f + (f + 1) / 2 + c / 2,
{
    f + (f / 2 + f % 2) + c / 2
}

/// Atlas slow quorum size (a majority).
pub fn slow_quorum(n: usize) -> (r: usize)
    ensures
        r == n / 2 + 1,
{
    n / 2 + 1
}

} // verus!
