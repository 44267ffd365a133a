//! PBFT's normal case: the primary pre-prepares each pending operation
//! with a sequence number; replicas echo `Prepare`, then `Commit` once
//! `2f + 1` prepares match, and log the operation once `2f + 1` commits
//! match.

use vstd::prelude::*;
use crate::collections::{Key, KeyMap, Tally};
use crate::net::{env_of, sends_to_all, Envelope, NodeId, StepCtx};

verus! {

/// Wire message.
#[derive(Clone, Copy, Debug)]
pub enum Msg {
    /// Phase 1: primary to all replicas.
    PrePrepare {
        /// View.
        v: u32,
        /// Sequence number.
        n: u32,
        /// Operation digest.
        op: u32,
    },
    /// Phase 2: replica to all on accepting a pre-prepare.
    Prepare {
        /// View.
        v: u32,
        /// Sequence number.
        n: u32,
        /// Operation digest.
        op: u32,
    },
    /// Phase 3: replica to all on a prepare certificate.
    Commit {
        /// View.
        v: u32,
        /// Sequence number.
        n: u32,
        /// Operation digest.
        op: u32,
    },
}

/// PBFT replica.
pub struct PbftNode {
    /// This replica's identity.
    pub id: NodeId,
    /// All replicas.
    pub everyone: Vec<NodeId>,
    /// Total replicas.
    pub n: usize,
    /// Byzantine bound.
    pub f: usize,
    /// Whether this replica is the primary.
    pub is_primary: bool,
    /// Current view.
    pub view: u32,
    /// Pending operations (primary only).
    pub pending: Vec<u32>,
    /// Last sequence number assigned by the primary.
    pub next_seq: u32,
    /// Accepted pre-prepares: `(view, seq) -> op`.
    pub pre_prepares: KeyMap<(u32, u32), u32>,
    /// Prepare senders per `(view, seq, op)`.
    pub prepares: Tally<(u32, u32, u32)>,
    /// Commit senders per `(view, seq, op)`.
    pub commits: Tally<(u32, u32, u32)>,
    /// Committed log of `(view, seq, op)`.
    pub log: Vec<(u32, u32, u32)>,
    /// Whether the primary has sent its pre-prepares.
    pub sent_pre_prepare: bool,
}

/// The `PrePrepare` broadcasts for `ops` numbered consecutively after
/// `last` in view `v`.
pub open spec fn pre_prepare_batch(from: NodeId, peers: Seq<NodeId>, now: u64, v: u32, last: int, ops: Seq<u32>) -> Seq<Envelope<Msg>>
    decreases ops.len(),
{
    if ops.len() == 0 {
        Seq::empty()
    } else {
        pre_prepare_batch(from, peers, now, v, last, ops.drop_last()) + sends_to_all(
            from,
            peers,
            now,
            Msg::PrePrepare { v, n: (last + ops.len()) as u32, op: ops.last() },
        )
    }
}

/// The primary's pre-prepares number its operations consecutively after
/// `last`: the `j`-th operation is pre-prepared to every peer, in order,
/// with sequence number `last + j + 1`, so distinct operations get
/// distinct sequence numbers.
pub proof fn lemma_pre_prepare_numbering(from: NodeId, peers: Seq<NodeId>, now: u64, v: u32, last: int, ops: Seq<u32>)
    requires
        0 <= last,
        last + ops.len() <= u32::MAX,
    ensures
        pre_prepare_batch(from, peers, now, v, last, ops).len() == ops.len() * peers.len(),
        forall|j: int, k: int|
            0 <= j < ops.len() && 0 <= k < peers.len() ==> #[trigger] pre_prepare_batch(from, peers, now, v, last, ops)[j
                * peers.len() + k] == env_of(from, peers[k], now, Msg::PrePrepare { v, n: (last + j + 1) as u32, op: ops[j] }),
    decreases ops.len(),
{
    let np = peers.len() as int;
    if ops.len() > 0 {
        let m = ops.len() - 1;
        let init = ops.drop_last();
        lemma_pre_prepare_numbering(from, peers, now, v, last, init);
        let prev = pre_prepare_batch(from, peers, now, v, last, init);
        let all = pre_prepare_batch(from, peers, now, v, last, ops);
        assert(m * np + np == ops.len() * np) by (nonlinear_arith)
            requires m == ops.len() - 1;
        assert forall|j: int, k: int| 0 <= j < ops.len() && 0 <= k < np implies #[trigger] all[j * np + k] == env_of(
            from,
            peers[k],
            now,
            Msg::PrePrepare { v, n: (last + j + 1) as u32, op: ops[j] },
        ) by {
            if j < m {
                assert((j + 1) * np <= m * np) by (nonlinear_arith)
                    requires j + 1 <= m, np >= 0;
                assert(j * np + np == (j + 1) * np) by (nonlinear_arith);
                assert(j * np + k < m * np);
                assert(j * np + k >= 0) by (nonlinear_arith)
                    requires j >= 0, k >= 0, np >= 0;
                assert(all[j * np + k] == prev[j * np + k]);
                assert(init[j] == ops[j]);
            } else {
                assert(j * np + k - prev.len() == k);
            }
        }
    }
}

impl PbftNode {
    /// Build a PBFT replica in view 0.
    pub fn new(id: NodeId, everyone: Vec<NodeId>, n: usize, f: usize, is_primary: bool, pending: Vec<u32>) -> (s: Self)
        ensures
            s.id == id,
            s.everyone@ == everyone@,
            s.n == n,
            s.f == f,
            s.is_primary == is_primary,
            s.view == 0,
            s.pending@ == pending@,
            s.next_seq == 0,
            s.pre_prepares@ == Map::<(u32, u32), u32>::empty(),
            forall|k: (u32, u32, u32)| #[trigger] s.prepares.voters(k) == Set::<NodeId>::empty(),
            forall|k: (u32, u32, u32)| #[trigger] s.commits.voters(k) == Set::<NodeId>::empty(),
            s.log@.len() == 0,
            !s.sent_pre_prepare,
    {
        PbftNode {
            id,
            everyone,
            n,
            f,
            is_primary,
            view: 0,
            pending,
            next_seq: 0,
            pre_prepares: KeyMap::new(),
            prepares: Tally::new(),
            commits: Tally::new(),
            log: Vec::new(),
            sent_pre_prepare: false,
        }
    }

    /// First tick: the primary pre-prepares each pending operation with
    /// the next sequence number.
    pub fn on_tick(&mut self, ctx: &mut StepCtx<Msg>)
        requires
            old(self).next_seq + old(self).pending@.len() <= u32::MAX,
        ensures
            final(ctx).now == old(ctx).now,
            final(ctx).timers@ == old(ctx).timers@,
            final(ctx).rng == old(ctx).rng,
            if old(self).is_primary && !old(self).sent_pre_prepare {
                &&& final(self).sent_pre_prepare
                &&& final(self).pending@.len() == 0
                &&& final(self).next_seq == old(self).next_seq + old(self).pending@.len()
                &&& *final(self) == (PbftNode {
                    sent_pre_prepare: true,
                    pending: final(self).pending,
                    next_seq: final(self).next_seq,
                    ..*old(self)
                })
                &&& final(ctx).outbox@ == old(ctx).outbox@ + pre_prepare_batch(
                    old(self).id,
                    old(self).everyone@,
                    old(ctx).now,
                    old(self).view,
                    old(self).next_seq as int,
                    old(self).pending@,
                )
            } else {
                &&& *final(self) == *old(self)
                &&& final(ctx).outbox@ == old(ctx).outbox@
            },
    {
        if !self.is_primary || self.sent_pre_prepare {
            return;
        }
        self.sent_pre_prepare = true;
        let mut pending = Vec::new();
        std::mem::swap(&mut pending, &mut self.pending);
        let ghost s0 = *self;
        let ghost out0 = ctx.outbox@;
        let mut j: usize = 0;
        while j < pending.len()
            invariant
                j <= pending@.len(),
                pending@ == old(self).pending@,
                *self == (PbftNode { next_seq: self.next_seq, ..s0 }),
                s0 == (PbftNode { sent_pre_prepare: true, pending: s0.pending, ..*old(self) }),
                s0.pending@.len() == 0,
                old(self).next_seq + pending@.len() <= u32::MAX,
                self.next_seq == old(self).next_seq + j,
                out0 == old(ctx).outbox@,
                ctx.now == old(ctx).now,
                ctx.timers@ == old(ctx).timers@,
                ctx.rng == old(ctx).rng,
                ctx.outbox@ == out0 + pre_prepare_batch(self.id, self.everyone@, ctx.now, self.view, old(self).next_seq as int, pending@.take(j as int)),
            decreases pending@.len() - j,
        {
            let op = pending[j];
            self.next_seq = self.next_seq + 1;
            let n = self.next_seq;
            ctx.broadcast(self.id, &self.everyone, Msg::PrePrepare { v: self.view, n, op });
            assert(pending@.take(j + 1).drop_last() =~= pending@.take(j as int));
            j = j + 1;
        }
        assert(pending@.take(j as int) =~= pending@);
    }

    fn log_contains(&self, e: (u32, u32, u32)) -> (r: bool)
        ensures
            r == self.log@.contains(e),
    {
        let mut i: usize = 0;
        while i < self.log.len()
            invariant
                i <= self.log@.len(),
                forall|k: int| 0 <= k < i ==> self.log@[k] != e,
            decreases self.log@.len() - i,
        {
            if self.log[i].same(&e) {
                return true;
            }
            i = i + 1;
        }
        false
    }

    /// Handle one delivered message of the current view (others are
    /// ignored). A pre-prepare is recorded and echoed as a `Prepare`;
    /// the `2f + 1`-th distinct matching prepare and every later one
    /// triggers a `Commit`; with `2f + 1` distinct matching commits the
    /// operation is logged once.
    pub fn on_receive(&mut self, env: Envelope<Msg>, ctx: &mut StepCtx<Msg>)
        requires
            2 * old(self).f + 1 <= usize::MAX,
        ensures
            old(self).log@.is_prefix_of(final(self).log@),
            final(ctx).now == old(ctx).now,
            final(ctx).timers@ == old(ctx).timers@,
            final(ctx).rng == old(ctx).rng,
            match env.msg {
                Msg::PrePrepare { v, n, op } => if v != old(self).view {
                    &&& *final(self) == *old(self)
                    &&& final(ctx).outbox@ == old(ctx).outbox@
                } else {
                    &&& final(self).pre_prepares@ == old(self).pre_prepares@.insert((v, n), op)
                    &&& *final(self) == (PbftNode { pre_prepares: final(self).pre_prepares, ..*old(self) })
                    &&& final(ctx).outbox@ == old(ctx).outbox@ + sends_to_all(old(self).id, old(self).everyone@, old(ctx).now, Msg::Prepare { v, n, op })
                },
                Msg::Prepare { v, n, op } => if v != old(self).view {
                    &&& *final(self) == *old(self)
                    &&& final(ctx).outbox@ == old(ctx).outbox@
                } else {
                    let voters = old(self).prepares.voters((v, n, op)).insert(env.from);
                    &&& final(self).prepares.voters((v, n, op)) == voters
                    &&& forall|k: (u32, u32, u32)| k != (v, n, op) ==> #[trigger] final(self).prepares.voters(k) == old(self).prepares.voters(k)
                    &&& *final(self) == (PbftNode { prepares: final(self).prepares, ..*old(self) })
                    &&& final(ctx).outbox@ == if voters.len() >= 2 * old(self).f + 1 {
                        old(ctx).outbox@ + sends_to_all(old(self).id, old(self).everyone@, old(ctx).now, Msg::Commit { v, n, op })
                    } else {
                        old(ctx).outbox@
                    }
                },
                Msg::Commit { v, n, op } => {
                    &&& final(ctx).outbox@ == old(ctx).outbox@
                    &&& if v != old(self).view {
                        *final(self) == *old(self)
                    } else {
                        let voters = old(self).commits.voters((v, n, op)).insert(env.from);
                        &&& final(self).commits.voters((v, n, op)) == voters
                        &&& forall|k: (u32, u32, u32)| k != (v, n, op) ==> #[trigger] final(self).commits.voters(k) == old(self).commits.voters(k)
                        &&& final(self).log@ == if voters.len() >= 2 * old(self).f + 1 && !old(self).log@.contains((v, n, op)) {
                            old(self).log@.push((v, n, op))
                        } else {
                            old(self).log@
                        }
                        &&& *final(self) == (PbftNode { commits: final(self).commits, log: final(self).log, ..*old(self) })
                    }
                },
            },
    {
        let quorum = 2 * self.f + 1;
        match env.msg {
            Msg::PrePrepare { v, n, op } => {
                if v != self.view {
                    return;
                }
                self.pre_prepares.insert((v, n), op);
                ctx.broadcast(self.id, &self.everyone, Msg::Prepare { v, n, op });
            },
            Msg::Prepare { v, n, op } => {
                if v != self.view {
                    return;
                }
                let count = self.prepares.add((v, n, op), env.from);
                if count >= quorum {
                    ctx.broadcast(self.id, &self.everyone, Msg::Commit { v, n, op });
                }
            },
            Msg::Commit { v, n, op } => {
                if v != self.view {
                    return;
                }
                let count = self.commits.add((v, n, op), env.from);
                if count >= quorum && !self.log_contains((v, n, op)) {
                    self.log.push((v, n, op));
                }
            },
        }
    }
}

} // verus!
