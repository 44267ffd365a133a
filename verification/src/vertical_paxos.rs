//! Stoppable and Vertical Paxos configurations.

use vstd::prelude::*;
use crate::net::NodeId;

verus! {

/// A Vertical-Paxos configuration: the replica set and the slot from
/// which it takes effect.
#[derive(Clone, Debug)]
pub struct Configuration {
    /// Epoch number (monotone across reconfigurations).
    pub epoch: u32,
    /// Replicas in this configuration.
    pub replicas: Vec<NodeId>,
    /// Slot at which this configuration takes effect.
    pub start_slot: u32,
}

impl Configuration {
    /// Build a configuration.
    pub fn new(epoch: u32, replicas: Vec<NodeId>, start_slot: u32) -> (c: Self)
        ensures
            c.epoch == epoch,
            c.replicas@ == replicas@,
            c.start_slot == start_slot,
    {
        Configuration { epoch, replicas, start_slot }
    }

    /// Quorum size: a majority of the replicas.
    pub fn quorum(&self) -> (r: usize)
        ensures
            r == self.replicas@.len() / 2 + 1,
    {
        self.replicas.len() / 2 + 1
    }
}

} // verus!
