//! Rampart's layered architecture.

use vstd::prelude::*;

verus! {

/// Rampart's three layers.
#[derive(Clone, Copy, Debug, PartialEq, Eq, Structural)]
pub enum Layer {
    /// Group communication: reliable, atomic and causal broadcast.
    GroupCommunication,
    /// Membership service.
    Membership,
    /// Replication service.
    Replication,
}

} // verus!
