//! Viewstamped Replication Revisited: status and persisted state.

use vstd::prelude::*;
use crate::net::NodeId;

verus! {

/// Replica status.
#[derive(Clone, Debug, PartialEq, Eq)]
pub enum VrStatus {
    /// Normal operation.
    Normal,
    /// View change in progress.
    ViewChange,
    /// Recovering after a crash.
    Recovering,
    /// Reconfiguration in progress, with the proposed new replica set.
    Reconfiguring(Vec<NodeId>),
}

/// The fields that must be on stable storage before a replica answers
/// its peers.
#[derive(Clone, Debug)]
pub struct PersistenceRecord {
    /// Current view number.
    pub view_num: u32,
    /// Sequence number of the latest accepted op.
    pub op_num: u32,
    /// Latest committed op number.
    pub commit_num: u32,
    /// Log of `(view, op)` pairs.
    pub log: Vec<(u32, u32)>,
    /// Last view-change vote, if any.
    pub last_dvc_vote: Option<u32>,
}

impl Default for PersistenceRecord {
    /// The record of a fresh replica: view, op and commit numbers 0, an
    /// empty log and no vote.
    fn default() -> (r: Self)
        ensures
            r.view_num == 0,
            r.op_num == 0,
            r.commit_num == 0,
            r.log@.len() == 0,
            r.last_dvc_vote is None,
    {
        PersistenceRecord { view_num: 0, op_num: 0, commit_num: 0, log: Vec::new(), last_dvc_vote: None }
    }
}

} // verus!
