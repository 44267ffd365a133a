//! Tendermint consensus state.

use vstd::prelude::*;

verus! {

/// Tendermint round step.
#[derive(Clone, Copy, Debug, PartialEq, Eq, Structural)]
pub enum Step {
    /// Awaiting or generating a proposal.
    Propose,
    /// Prevote phase.
    Prevote,
    /// Precommit phase.
    Precommit,
}

/// Tendermint per-height state.
#[derive(Clone, Debug, Default)]
pub struct TendermintState {
    /// Current block height.
    pub height: u64,
    /// Current round within the height.
    pub round: u32,
    /// Current step.
    pub step: Option<Step>,
    /// Value the validator is locked on.
    pub locked_value: Option<u32>,
    /// Round in which the lock was set.
    pub locked_round: Option<u32>,
}

} // verus!
