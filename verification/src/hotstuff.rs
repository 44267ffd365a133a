//! HotStuff blocks and quorum certificates.

use vstd::prelude::*;

verus! {

/// Quorum certificate: `2f + 1` aggregated votes on a block.
#[derive(Clone, Copy, Debug, PartialEq, Eq, Structural)]
pub struct QuorumCert {
    /// Height of the certified block.
    pub height: u32,
    /// Hash of the certified block.
    pub block_hash: u64,
}

/// HotStuff block.
#[derive(Clone, Debug)]
pub struct Block {
    /// Parent block hash.
    pub parent: u64,
    /// QC over the parent.
    pub qc: QuorumCert,
    /// Block payload.
    pub payload: Vec<u32>,
    /// Height.
    pub height: u32,
}

/// HotStuff phase.
#[derive(Clone, Copy, Debug, PartialEq, Eq, Structural)]
pub enum Phase {
    /// Prepare.
    Prepare,
    /// Pre-commit.
    PreCommit,
    /// Commit.
    Commit,
    /// Decide.
    Decide,
}

} // verus!
