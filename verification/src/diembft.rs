//! DiemBFT versions.

use vstd::prelude::*;

verus! {

/// DiemBFT major version (lineage tracker).
#[derive(Clone, Copy, Debug, PartialEq, Eq, Structural)]
pub enum Version {
    /// LibraBFT 2019.
    LibraV1,
    /// DiemBFT v2 (2020): pacemaker improvements.
    V2,
    /// DiemBFT v3 (2020): Jolteon two-chain.
    V3,
    /// DiemBFT v4 (2021): Quorum Store and Shoal.
    V4,
}

} // verus!
