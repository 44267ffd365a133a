//! Jolteon's two-chain commit rule against HotStuff's three-chain rule.

use vstd::prelude::*;

verus! {

/// HotStuff vs Jolteon chain-length classification.
#[derive(Clone, Copy, Debug, PartialEq, Eq, Structural)]
pub enum ChainFamily {
    /// HotStuff: three-chain commit.
    HotStuff,
    /// Jolteon: two-chain commit.
    Jolteon,
}

/// Number of consecutive QC-extending children required to commit.
pub fn commit_chain_length(family: ChainFamily) -> (r: usize)
    ensures
        r == (match family {
            ChainFamily::HotStuff => 3usize,
            ChainFamily::Jolteon => 2usize,
        }),
{
    match family {
        ChainFamily::HotStuff => 3,
        ChainFamily::Jolteon => 2,
    }
}

} // verus!
