//! ZAB's broadcast phase: the leader proposes each pending operation
//! under a fresh zxid; followers log and acknowledge it; once a quorum
//! acknowledges, the leader sends `Commit`.

use vstd::prelude::*;
use crate::collections::{Key, Tally};
use crate::net::{env_of, sends_to_all, Envelope, NodeId, StepCtx};
use crate::raft::{others, others_of};

verus! {

/// Zxid: epoch and counter within the epoch.
#[derive(Clone, Copy, Debug, PartialEq, Eq, Structural, PartialOrd, Ord)]
pub struct Zxid {
    /// Epoch.
    pub epoch: u32,
    /// Counter within the epoch.
    pub counter: u32,
}

impl Key for Zxid {
    fn same(&self, other: &Self) -> (r: bool) {
        self.epoch == other.epoch && self.counter == other.counter
    }
}

/// Wire message.
#[derive(Clone, Copy, Debug)]
pub enum Msg {
    /// Leader to followers: propose a transaction.
    Propose {
        /// Zxid.
        zxid: Zxid,
        /// Operation.
        op: u32,
    },
    /// Follower to leader: acknowledge the transaction.
    Ack {
        /// Zxid.
        zxid: Zxid,
    },
    /// Leader to followers: commit the transaction.
    Commit {
        /// Zxid.
        zxid: Zxid,
    },
}

/// ZAB node.
pub struct ZabNode {
    /// This node's identity.
    pub id: NodeId,
    /// All nodes.
    pub everyone: Vec<NodeId>,
    /// Whether this node is the leader.
    pub is_leader: bool,
    /// Current epoch.
    pub epoch: u32,
    /// Logged `(zxid, op)` pairs.
    pub log: Vec<(Zxid, u32)>,
    /// Pending operations (leader only).
    pub pending: Vec<u32>,
    /// Last counter the leader assigned.
    pub next_counter: u32,
    /// Acknowledgers per zxid.
    pub acks: Tally<Zxid>,
    /// Whether the leader has started.
    pub started: bool,
}

/// The `Propose` broadcasts for `ops` under consecutive counters after
/// `last` in `epoch`.
pub open spec fn propose_batch(from: NodeId, peers: Seq<NodeId>, now: u64, epoch: u32, last: int, ops: Seq<u32>) -> Seq<Envelope<Msg>>
    decreases ops.len(),
{
    if ops.len() == 0 {
        Seq::empty()
    } else {
        propose_batch(from, peers, now, epoch, last, ops.drop_last()) + sends_to_all(
            from,
            peers,
            now,
            Msg::Propose { zxid: Zxid { epoch, counter: (last + ops.len()) as u32 }, op: ops.last() },
        )
    }
}

/// The leader's proposals number its operations consecutively after
/// `last` within `epoch`: the `j`-th operation is proposed to every peer,
/// in order, under zxid `(epoch, last + j + 1)`, so zxids strictly
/// increase and no two operations share one.
pub proof fn lemma_zxid_numbering(from: NodeId, peers: Seq<NodeId>, now: u64, epoch: u32, last: int, ops: Seq<u32>)
    requires
        0 <= last,
        last + ops.len() <= u32::MAX,
    ensures
        propose_batch(from, peers, now, epoch, last, ops).len() == ops.len() * peers.len(),
        forall|j: int, k: int|
            0 <= j < ops.len() && 0 <= k < peers.len() ==> #[trigger] propose_batch(from, peers, now, epoch, last, ops)[j
                * peers.len() + k] == env_of(
                from,
                peers[k],
                now,
                Msg::Propose { zxid: Zxid { epoch, counter: (last + j + 1) as u32 }, op: ops[j] },
            ),
    decreases ops.len(),
{
    let np = peers.len() as int;
    if ops.len() > 0 {
        let m = ops.len() - 1;
        let init = ops.drop_last();
        lemma_zxid_numbering(from, peers, now, epoch, last, init);
        let prev = propose_batch(from, peers, now, epoch, last, init);
        let all = propose_batch(from, peers, now, epoch, last, ops);
        assert(m * np + np == ops.len() * np) by (nonlinear_arith)
            requires m == ops.len() - 1;
        assert forall|j: int, k: int| 0 <= j < ops.len() && 0 <= k < np implies #[trigger] all[j * np + k] == env_of(
            from,
            peers[k],
            now,
            Msg::Propose { zxid: Zxid { epoch, counter: (last + j + 1) as u32 }, op: ops[j] },
        ) by {
            if j < m {
                assert((j + 1) * np <= m * np) by (nonlinear_arith)
                    requires j + 1 <= m, np >= 0;
                assert(j * np + np == (j + 1) * np) by (nonlinear_arith);
                assert(j * np + k >= 0) by (nonlinear_arith)
                    requires j >= 0, k >= 0, np >= 0;
                assert(all[j * np + k] == prev[j * np + k]);
                assert(init[j] == ops[j]);
            } else {
                assert(j * np + k - prev.len() == k);
            }
        }
    }
}

impl ZabNode {
    /// A majority of the nodes.
    pub open spec fn quorum_spec(&self) -> int {
        self.everyone@.len() as int / 2 + 1
    }

    /// Build a ZAB node.
    pub fn new(id: NodeId, everyone: Vec<NodeId>, is_leader: bool, epoch: u32, pending: Vec<u32>) -> (s: Self)
        ensures
            s.id == id,
            s.everyone@ == everyone@,
            s.is_leader == is_leader,
            s.epoch == epoch,
            s.log@.len() == 0,
            s.pending@ == pending@,
            s.next_counter == 0,
            forall|z: Zxid| #[trigger] s.acks.voters(z) == Set::<NodeId>::empty(),
            !s.started,
    {
        ZabNode { id, everyone, is_leader, epoch, log: Vec::new(), pending, next_counter: 0, acks: Tally::new(), started: false }
    }

    fn quorum(&self) -> (r: usize)
        ensures
            r == self.quorum_spec(),
    {
        self.everyone.len() / 2 + 1
    }

    /// First tick: the leader proposes each pending operation under the
    /// next counter of its epoch.
    pub fn on_tick(&mut self, ctx: &mut StepCtx<Msg>)
        requires
            old(self).next_counter + old(self).pending@.len() <= u32::MAX,
        ensures
            final(ctx).now == old(ctx).now,
            final(ctx).timers@ == old(ctx).timers@,
            final(ctx).rng == old(ctx).rng,
            if old(self).is_leader && !old(self).started {
                &&& final(self).pending@.len() == 0
                &&& final(self).next_counter == old(self).next_counter + old(self).pending@.len()
                &&& *final(self) == (ZabNode {
                    started: true,
                    pending: final(self).pending,
                    next_counter: final(self).next_counter,
                    ..*old(self)
                })
                &&& final(ctx).outbox@ == old(ctx).outbox@ + propose_batch(
                    old(self).id,
                    old(self).everyone@,
                    old(ctx).now,
                    old(self).epoch,
                    old(self).next_counter as int,
                    old(self).pending@,
                )
            } else {
                &&& *final(self) == *old(self)
                &&& final(ctx).outbox@ == old(ctx).outbox@
            },
    {
        if !self.is_leader || self.started {
            return;
        }
        self.started = true;
        let mut pending = Vec::new();
        std::mem::swap(&mut pending, &mut self.pending);
        let ghost s0 = *self;
        let ghost out0 = ctx.outbox@;
        let mut j: usize = 0;
        while j < pending.len()
            invariant
                j <= pending@.len(),
                pending@ == old(self).pending@,
                *self == (ZabNode { next_counter: self.next_counter, ..s0 }),
                s0 == (ZabNode { started: true, pending: s0.pending, ..*old(self) }),
                s0.pending@.len() == 0,
                old(self).next_counter + pending@.len() <= u32::MAX,
                self.next_counter == old(self).next_counter + j,
                out0 == old(ctx).outbox@,
                ctx.now == old(ctx).now,
                ctx.timers@ == old(ctx).timers@,
                ctx.rng == old(ctx).rng,
                ctx.outbox@ == out0 + propose_batch(self.id, self.everyone@, ctx.now, self.epoch, old(self).next_counter as int, pending@.take(j as int)),
            decreases pending@.len() - j,
        {
            let op = pending[j];
            self.next_counter = self.next_counter + 1;
            let zxid = Zxid { epoch: self.epoch, counter: self.next_counter };
            ctx.broadcast(self.id, &self.everyone, Msg::Propose { zxid, op });
            assert(pending@.take(j + 1).drop_last() =~= pending@.take(j as int));
            j = j + 1;
        }
        assert(pending@.take(j as int) =~= pending@);
    }

    /// Handle one delivered message. Every node logs a proposal and
    /// acknowledges it to its sender; the leader counts acknowledgements
    /// and, from a quorum on, sends `Commit` to every other node.
    pub fn on_receive(&mut self, env: Envelope<Msg>, ctx: &mut StepCtx<Msg>)
        ensures
            old(self).log@.is_prefix_of(final(self).log@),
            final(ctx).now == old(ctx).now,
            final(ctx).timers@ == old(ctx).timers@,
            final(ctx).rng == old(ctx).rng,
            match env.msg {
                Msg::Propose { zxid, op } => {
                    &&& final(self).log@ == old(self).log@.push((zxid, op))
                    &&& *final(self) == (ZabNode { log: final(self).log, ..*old(self) })
                    &&& final(ctx).outbox@ == old(ctx).outbox@.push(env_of(old(self).id, env.from, old(ctx).now, Msg::Ack { zxid }))
                },
                Msg::Ack { zxid } => if !old(self).is_leader {
                    &&& *final(self) == *old(self)
                    &&& final(ctx).outbox@ == old(ctx).outbox@
                } else {
                    let voters = old(self).acks.voters(zxid).insert(env.from);
                    &&& final(self).acks.voters(zxid) == voters
                    &&& forall|z: Zxid| z != zxid ==> #[trigger] final(self).acks.voters(z) == old(self).acks.voters(z)
                    &&& *final(self) == (ZabNode { acks: final(self).acks, ..*old(self) })
                    &&& final(ctx).outbox@ == if voters.len() >= old(self).quorum_spec() {
                        old(ctx).outbox@ + sends_to_all(old(self).id, others(old(self).everyone@, old(self).id), old(ctx).now, Msg::Commit { zxid })
                    } else {
                        old(ctx).outbox@
                    }
                },
                Msg::Commit { .. } => {
                    &&& *final(self) == *old(self)
                    &&& final(ctx).outbox@ == old(ctx).outbox@
                },
            },
    {
        match env.msg {
            Msg::Propose { zxid, op } => {
                ctx.send(self.id, env.from, Msg::Ack { zxid });
                self.log.push((zxid, op));
            },
            Msg::Ack { zxid } => {
                if !self.is_leader {
                    return;
                }
                let count = self.acks.add(zxid, env.from);
                if count >= self.quorum() {
                    let peers = others_of(&self.everyone, self.id);
                    ctx.broadcast(self.id, &peers, Msg::Commit { zxid });
                }
            },
            Msg::Commit { .. } => {},
        }
    }
}

} // verus!
