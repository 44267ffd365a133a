//! CASPaxos acceptor: per-key compare-and-swap Paxos.

use vstd::prelude::*;

verus! {

/// CAS function: takes the current value, returns the new one.
pub type CasFn = fn(u32) -> u32;

/// Per-key CASPaxos acceptor state.
#[derive(Clone, Copy, Debug, Default)]
pub struct CasPaxosAcceptor {
    /// Promised ballot.
    pub promised: u32,
    /// Latest accepted `(ballot, value)`.
    pub accepted: Option<(u32, u32)>,
}

/// Result of a Phase-1 prepare.
#[derive(Clone, Copy, Debug)]
pub enum PrepareReply {
    /// Promised; carries the latest accepted `(ballot, value)`, if any.
    Promised(Option<(u32, u32)>),
    /// Rejected (`b <= promised`).
    Rejected,
}

impl CasPaxosAcceptor {
    /// Phase 1: promise ballot `b` if it exceeds the current promise,
    /// reporting what was last accepted.
    pub fn prepare(&mut self, b: u32) -> (r: PrepareReply)
        ensures
            b > old(self).promised ==> {
                &&& final(self).promised == b
                &&& final(self).accepted == old(self).accepted
                &&& r == PrepareReply::Promised(old(self).accepted)
            },
            b <= old(self).promised ==> {
                &&& *final(self) == *old(self)
                &&& r == PrepareReply::Rejected
            },
            final(self).promised >= old(self).promised,
    {
        if b > self.promised {
            self.promised = b;
            PrepareReply::Promised(self.accepted)
        } else {
            PrepareReply::Rejected
        }
    }

    /// Phase 2: accept `(b, v)` unless `b` is below the promise.
    pub fn accept(&mut self, b: u32, v: u32) -> (r: bool)
        ensures
            r == (b >= old(self).promised),
            r ==> final(self).promised == b && final(self).accepted == Some((b, v)),
            !r ==> *final(self) == *old(self),
            final(self).promised >= old(self).promised,
    {
        if b >= self.promised {
            self.promised = b;
            self.accepted = Some((b, v));
            true
        } else {
            false
        }
    }
}

} // verus!
