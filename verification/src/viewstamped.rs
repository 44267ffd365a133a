//! Viewstamped Replication, normal-case operation: the primary of the
//! view numbers its pending operations and sends `Prepare`s; backups
//! place them in their logs and answer `PrepareOk`; the primary commits
//! an operation once a quorum (itself included) holds it.

use vstd::prelude::*;
use crate::collections::Tally;
use crate::net::{env_of, sends_to_all, Envelope, NodeId, StepCtx};
use crate::raft::others;

verus! {

/// Wire message.
#[derive(Clone, Copy, Debug)]
pub enum Msg {
    /// Primary to backup: prepare a new operation.
    Prepare {
        /// View number.
        view: u32,
        /// Operation sequence number.
        op_num: u32,
        /// The operation payload.
        op: u32,
        /// Latest committed `op_num`.
        commit_num: u32,
    },
    /// Backup to primary: accepted `Prepare`.
    PrepareOk {
        /// View number.
        view: u32,
        /// Operation sequence number.
        op_num: u32,
        /// The backup's id.
        backup: NodeId,
    },
}

/// The replicas of a view and the position of its primary among them,
/// which always names one of the replicas.
pub struct Membership {
    everyone: Vec<NodeId>,
    primary_idx: usize,
}

impl Membership {
    #[verifier::type_invariant]
    spec fn wf(&self) -> bool {
        self.primary_idx < self.everyone@.len()
    }

    /// All replicas, in order.
    pub closed spec fn replicas(&self) -> Seq<NodeId> {
        self.everyone@
    }

    /// The view's primary.
    pub closed spec fn primary(&self) -> NodeId {
        self.everyone@[self.primary_idx as int]
    }

    /// The replicas `everyone` of view `view_num`, whose primary is
    /// replica `view_num mod n`.
    pub fn new(everyone: Vec<NodeId>, view_num: u32) -> (m: Self)
        requires
            everyone@.len() > 0,
        ensures
            m.replicas() == everyone@,
            m.primary() == everyone@[view_num as int % everyone@.len() as int],
    {
        let primary_idx = view_num as usize % everyone.len();
        Membership { everyone, primary_idx }
    }

    /// All replicas.
    pub fn everyone(&self) -> (r: &Vec<NodeId>)
        ensures
            r@ == self.replicas(),
    {
        &self.everyone
    }

    /// The view's primary.
    pub fn primary_node(&self) -> (r: NodeId)
        ensures
            r == self.primary(),
    {
        proof { use_type_invariant(self); }
        self.everyone[self.primary_idx]
    }
}

/// VR replica state.
pub struct VrNode {
    /// This node's identity.
    pub id: NodeId,
    /// The replicas and the view's primary among them.
    pub membership: Membership,
    /// Current view number.
    pub view_num: u32,
    /// Sequence number of the last op the primary assigned.
    pub next_op: u32,
    /// Backups' acknowledgements per `op_num`.
    pub acks: Tally<u32>,
    /// Replicated log.
    pub log: Vec<u32>,
    /// Latest `op_num` known committed.
    pub commit_num: u32,
    /// Pending operations (primary only).
    pub pending: Vec<u32>,
    /// Whether the primary has started.
    pub started: bool,
}

/// The `Prepare` broadcasts for `ops` numbered consecutively after
/// `last`.
pub open spec fn prepare_batch(
    from: NodeId,
    peers: Seq<NodeId>,
    now: u64,
    view: u32,
    last: int,
    ops: Seq<u32>,
    commit_num: u32,
) -> Seq<Envelope<Msg>>
    decreases ops.len(),
{
    if ops.len() == 0 {
        Seq::empty()
    } else {
        prepare_batch(from, peers, now, view, last, ops.drop_last(), commit_num) + sends_to_all(
            from,
            peers,
            now,
            Msg::Prepare { view, op_num: (last + ops.len()) as u32, op: ops.last(), commit_num },
        )
    }
}

/// `log` extended with zeros up to length `n`.
pub open spec fn pad_zero(log: Seq<u32>, n: int) -> Seq<u32> {
    if log.len() >= n {
        log
    } else {
        log + Seq::new((n - log.len()) as nat, |k: int| 0u32)
    }
}

/// The primary's prepares number its operations consecutively after
/// `last`: the `j`-th operation is sent to every backup, in order, with
/// op number `last + j + 1`, so no two operations share an op number.
pub proof fn lemma_prepare_numbers(from: NodeId, peers: Seq<NodeId>, now: u64, view: u32, last: int, ops: Seq<u32>, commit_num: u32)
    requires
        0 <= last,
        last + ops.len() <= u32::MAX,
    ensures
        prepare_batch(from, peers, now, view, last, ops, commit_num).len() == ops.len() * peers.len(),
        forall|j: int, k: int|
            0 <= j < ops.len() && 0 <= k < peers.len() ==> #[trigger] prepare_batch(from, peers, now, view, last, ops, commit_num)[j * peers.len() + k]
                == env_of(from, peers[k], now, Msg::Prepare { view, op_num: (last + j + 1) as u32, op: ops[j], commit_num }),
    decreases ops.len(),
{
    let np = peers.len() as int;
    if ops.len() > 0 {
        let m = ops.len() - 1;
        let init = ops.drop_last();
        lemma_prepare_numbers(from, peers, now, view, last, init, commit_num);
        let prev = prepare_batch(from, peers, now, view, last, init, commit_num);
        let all = prepare_batch(from, peers, now, view, last, ops, commit_num);
        assert(m * np + np == ops.len() * np) by (nonlinear_arith)
            requires m == ops.len() - 1;
        assert forall|j: int, k: int| 0 <= j < ops.len() && 0 <= k < np implies #[trigger] all[j * np + k] == env_of(
            from,
            peers[k],
            now,
            Msg::Prepare { view, op_num: (last + j + 1) as u32, op: ops[j], commit_num },
        ) by {
            if j < m {
                assert((j + 1) * np <= m * np) by (nonlinear_arith)
                    requires j + 1 <= m, np >= 0;
                assert(j * np + np == (j + 1) * np) by (nonlinear_arith);
                assert(j * np + k >= 0) by (nonlinear_arith)
                    requires j >= 0, k >= 0, np >= 0;
                assert(all[j * np + k] == prev[j * np + k]);
                assert(init[j] == ops[j]);
            } else {
                assert(j * np + k - prev.len() == k);
            }
        }
    }
}

impl VrNode {
    /// Whether this node is the view's primary.
    pub open spec fn is_primary_spec(&self) -> bool {
        self.membership.primary() == self.id
    }

    /// A majority of the replicas.
    pub open spec fn quorum_spec(&self) -> int {
        self.membership.replicas().len() as int / 2 + 1
    }

    /// Build a VR node for view `view_num`, whose primary is replica
    /// `view_num mod n`.
    pub fn new(id: NodeId, everyone: Vec<NodeId>, view_num: u32, pending: Vec<u32>) -> (s: Self)
        requires
            everyone@.len() > 0,
        ensures
            s.id == id,
            s.membership.replicas() == everyone@,
            s.membership.primary() == everyone@[view_num as int % everyone@.len() as int],
            s.view_num == view_num,
            s.next_op == 0,
            forall|k: u32| #[trigger] s.acks.voters(k) == Set::<NodeId>::empty(),
            s.log@.len() == 0,
            s.commit_num == 0,
            s.pending@ == pending@,
            !s.started,
    {
        VrNode {
            id,
            membership: Membership::new(everyone, view_num),
            view_num,
            next_op: 0,
            acks: Tally::new(),
            log: Vec::new(),
            commit_num: 0,
            pending,
            started: false,
        }
    }

    fn is_primary(&self) -> (r: bool)
        ensures
            r == self.is_primary_spec(),
    {
        self.membership.primary_node().0 == self.id.0
    }

    fn quorum(&self) -> (r: usize)
        ensures
            r == self.quorum_spec(),
    {
        self.membership.everyone().len() / 2 + 1
    }

    /// First tick: the primary numbers each pending op, logs it and
    /// sends a `Prepare` for it to every backup.
    pub fn on_tick(&mut self, ctx: &mut StepCtx<Msg>)
        requires
            old(self).next_op + old(self).pending@.len() <= u32::MAX,
        ensures
            final(ctx).now == old(ctx).now,
            final(ctx).timers@ == old(ctx).timers@,
            final(ctx).rng == old(ctx).rng,
            if old(self).is_primary_spec() && !old(self).started {
                &&& final(self).started
                &&& final(self).pending@.len() == 0
                &&& final(self).next_op == old(self).next_op + old(self).pending@.len()
                &&& final(self).log@ == old(self).log@ + old(self).pending@
                &&& final(self).id == old(self).id
                &&& final(self).membership == old(self).membership
                &&& final(self).view_num == old(self).view_num
                &&& final(self).acks == old(self).acks
                &&& final(self).commit_num == old(self).commit_num
                &&& final(ctx).outbox@ == old(ctx).outbox@ + prepare_batch(
                    old(self).id,
                    others(old(self).membership.replicas(), old(self).id),
                    old(ctx).now,
                    old(self).view_num,
                    old(self).next_op as int,
                    old(self).pending@,
                    old(self).commit_num,
                )
            } else {
                &&& *final(self) == *old(self)
                &&& final(ctx).outbox@ == old(ctx).outbox@
            },
    {
        if !self.is_primary() || self.started {
            return;
        }
        self.started = true;
        let mut pending = Vec::new();
        std::mem::swap(&mut pending, &mut self.pending);
        let peers = crate::raft::others_of(self.membership.everyone(), self.id);
        let ghost s0 = *self;
        let ghost out0 = ctx.outbox@;
        let mut j: usize = 0;
        while j < pending.len()
            invariant
                j <= pending@.len(),
                pending@ == old(self).pending@,
                peers@ == others(old(self).membership.replicas(), old(self).id),
                *self == (VrNode { next_op: self.next_op, log: self.log, ..s0 }),
                s0.membership == old(self).membership,
                s0.id == old(self).id,
                s0.view_num == old(self).view_num,
                s0.commit_num == old(self).commit_num,
                s0.started,
                s0.pending@.len() == 0,
                s0.acks == old(self).acks,
                old(self).next_op + pending@.len() <= u32::MAX,
                self.next_op == old(self).next_op + j,
                self.log@ == old(self).log@ + pending@.take(j as int),
                out0 == old(ctx).outbox@,
                ctx.now == old(ctx).now,
                ctx.timers@ == old(ctx).timers@,
                ctx.rng == old(ctx).rng,
                ctx.outbox@ == out0 + prepare_batch(
                    self.id,
                    peers@,
                    ctx.now,
                    self.view_num,
                    old(self).next_op as int,
                    pending@.take(j as int),
                    self.commit_num,
                ),
            decreases pending@.len() - j,
        {
            let op = pending[j];
            self.next_op = self.next_op + 1;
            let op_num = self.next_op;
            self.log.push(op);
            ctx.broadcast(
                self.id,
                &peers,
                Msg::Prepare { view: self.view_num, op_num, op, commit_num: self.commit_num },
            );
            proof {
                let t = pending@.take(j + 1);
                assert(t.drop_last() =~= pending@.take(j as int));
                assert(old(self).log@ + t =~= old(self).log@ + pending@.take(j as int) + seq![op]);
            }
            j = j + 1;
        }
        assert(pending@.take(j as int) =~= pending@);
    }

    /// Handle one delivered message. A `Prepare` of the current view is
    /// placed at position `op_num` of the log (gaps filled with 0) and
    /// acknowledged to the primary; the primary commits an op once the
    /// acknowledgements plus itself reach a quorum.
    pub fn on_receive(&mut self, env: Envelope<Msg>, ctx: &mut StepCtx<Msg>)
        requires
            old(self).log@.len() < u32::MAX,
            env.msg matches Msg::Prepare { view, op_num, .. } ==> (view == old(self).view_num ==> op_num >= 1),
        ensures
            final(self).commit_num >= old(self).commit_num,
            final(self).view_num == old(self).view_num,
            final(ctx).now == old(ctx).now,
            final(ctx).timers@ == old(ctx).timers@,
            final(ctx).rng == old(ctx).rng,
            match env.msg {
                Msg::Prepare { view, op_num, op, commit_num } => if view != old(self).view_num {
                    &&& *final(self) == *old(self)
                    &&& final(ctx).outbox@ == old(ctx).outbox@
                } else {
                    &&& final(self).log@ == pad_zero(old(self).log@, op_num as int).update(op_num - 1, op)
                    &&& final(self).commit_num == if commit_num > old(self).commit_num {
                        commit_num
                    } else {
                        old(self).commit_num
                    }
                    &&& *final(self) == (VrNode { log: final(self).log, commit_num: final(self).commit_num, ..*old(self) })
                    &&& final(ctx).outbox@ == old(ctx).outbox@.push(
                        env_of(
                            old(self).id,
                            old(self).membership.primary(),
                            old(ctx).now,
                            Msg::PrepareOk { view: old(self).view_num, op_num, backup: old(self).id },
                        ),
                    )
                },
                Msg::PrepareOk { view, op_num, backup } => {
                    &&& final(ctx).outbox@ == old(ctx).outbox@
                    &&& if view != old(self).view_num || !old(self).is_primary_spec() {
                        *final(self) == *old(self)
                    } else {
                        let acks = old(self).acks.voters(op_num).insert(backup);
                        &&& final(self).acks.voters(op_num) == acks
                        &&& forall|k: u32| k != op_num ==> #[trigger] final(self).acks.voters(k) == old(self).acks.voters(k)
                        &&& final(self).commit_num == if acks.len() + 1 >= old(self).quorum_spec() && op_num > old(self).commit_num {
                            op_num
                        } else {
                            old(self).commit_num
                        }
                        &&& *final(self) == (VrNode { acks: final(self).acks, commit_num: final(self).commit_num, ..*old(self) })
                    }
                },
            },
    {
        match env.msg {
            Msg::Prepare { view, op_num, op, commit_num } => {
                if view != self.view_num {
                    return;
                }
                let ghost log0 = self.log@;
                let ghost s0 = *self;
                while self.log.len() < op_num as usize
                    invariant
                        *self == (VrNode { log: self.log, ..s0 }),
                        self.log@ == pad_zero(log0, self.log@.len() as int),
                        self.log@.len() >= log0.len(),
                        self.log@.len() <= if log0.len() > op_num { log0.len() as int } else { op_num as int },
                    decreases op_num - self.log@.len(),
                {
                    self.log.push(0);
                    assert(pad_zero(log0, self.log@.len() as int) =~= self.log@);
                }
                assert(pad_zero(log0, op_num as int) =~= pad_zero(log0, self.log@.len() as int));
                if (self.log.len() as u32) < op_num {
                    self.log.push(op);
                } else {
                    self.log.set((op_num - 1) as usize, op);
                }
                if commit_num > self.commit_num {
                    self.commit_num = commit_num;
                }
                let primary = self.membership.primary_node();
                ctx.send(self.id, primary, Msg::PrepareOk { view: self.view_num, op_num, backup: self.id });
            },
            Msg::PrepareOk { view, op_num, backup } => {
                if view != self.view_num || !self.is_primary() {
                    return;
                }
                let count = self.acks.add(op_num, backup);
                if count >= self.quorum() - 1 && op_num > self.commit_num {
                    self.commit_num = op_num;
                }
            },
        }
    }
}

} // verus!
