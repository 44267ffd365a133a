//! Cheap Paxos: main versus auxiliary acceptors.

use vstd::prelude::*;
use crate::net::NodeId;

verus! {

/// Acceptor role.
#[derive(Clone, Copy, Debug, PartialEq, Eq, Structural)]
pub enum Role {
    /// Always on, with stable storage.
    Main,
    /// Online only during reconfiguration; no stable storage.
    Auxiliary,
}

/// Which acceptors are main and which auxiliary.
#[derive(Clone, Debug)]
pub struct Config {
    /// Main acceptors.
    pub main: Vec<NodeId>,
    /// Auxiliary acceptors.
    pub auxiliary: Vec<NodeId>,
}

impl Config {
    /// Total acceptors: main plus auxiliary.
    pub fn n(&self) -> (r: usize)
        requires
            self.main@.len() + self.auxiliary@.len() <= usize::MAX,
        ensures
            r == self.main@.len() + self.auxiliary@.len(),
    {
        self.main.len() + self.auxiliary.len()
    }

    /// Quorum threshold: a majority of all acceptors.
    pub fn quorum(&self) -> (r: usize)
        requires
            self.main@.len() + self.auxiliary@.len() <= usize::MAX,
        ensures
            r == (self.main@.len() + self.auxiliary@.len()) / 2 + 1,
    {
        self.n() / 2 + 1
    }

    /// Valid when the main acceptors alone form a quorum, so the
    /// auxiliaries are needed only for reconfiguration.
    pub fn is_valid(&self) -> (r: bool)
        requires
            self.main@.len() + self.auxiliary@.len() <= usize::MAX,
        ensures
            r == (self.main@.len() >= (self.main@.len() + self.auxiliary@.len()) / 2 + 1),
    {
        self.main.len() >= self.quorum()
    }
}

} // verus!
