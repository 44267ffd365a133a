//! Q/U quorum sizes.

use vstd::prelude::*;

verus! {

/// Q/U quorum size (read = write = `4f + 1`).
pub fn quorum_size(f: usize) -> (r: usize)
    requires
        4 * f + 1 <= usize::MAX,
    ensures
        r == 4 * f + 1,
{
    4 * f + 1
}

/// The fewest servers Q/U needs to tolerate `f` faults: `5f + 1`.
pub fn min_n(f: usize) -> (r: usize)
    requires
        5 * f + 1 <= usize::MAX,
    ensures
        r == 5 * f + 1,
{
    5 * f + 1
}

} // verus!
