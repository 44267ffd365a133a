//! Steward hierarchical BFT sizes.

use vstd::prelude::*;

verus! {

/// Total replicas: `per_site` replicas at each of `sites` sites.
pub fn total_replicas(per_site: usize, sites: usize) -> (r: usize)
    requires
        per_site * sites <= usize::MAX,
    ensures
        r == per_site * sites,
{
    per_site * sites
}

/// Local (BFT) quorum inside one site: `2 f_local + 1`.
pub fn local_quorum(n_local: usize, f_local: usize) -> (r: usize)
    requires
        2 * f_local + 1 <= usize::MAX,
    ensures
        r == 2 * f_local + 1,
{
    let _ = n_local;
    2 * f_local + 1
}

/// Global (crash-fault Paxos) quorum across sites: a majority.
pub fn global_quorum(sites: usize) -> (r: usize)
    ensures
        r == sites / 2 + 1,
{
    sites / 2 + 1
}

} // verus!
