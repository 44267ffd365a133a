//! Compartmentalized Paxos roles.

use vstd::prelude::*;

verus! {

/// Role of a process in Compartmentalized Paxos.
#[derive(Clone, Copy, Debug, PartialEq, Eq, Structural)]
pub enum Role {
    /// Client.
    Client,
    /// Proposer (leader-equivalent).
    Proposer,
    /// Acceptor.
    Acceptor,
    /// Batcher: aggregates client requests.
    Batcher,
    /// Unbatcher: splits committed batches.
    Unbatcher,
    /// Replica: executes operations.
    Replica,
    /// Read-only replica.
    ReadReplica,
}

} // verus!
