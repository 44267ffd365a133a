//! BFT-SMaRt's pluggable components.

use vstd::prelude::*;

verus! {

/// BFT-SMaRt's component types.
#[derive(Clone, Copy, Debug, PartialEq, Eq, Structural)]
pub enum Component {
    /// Authentication module (MAC vs signature).
    Auth,
    /// Network module.
    Network,
    /// State-transfer module.
    StateTransfer,
    /// Recovery module.
    Recovery,
}

} // verus!
