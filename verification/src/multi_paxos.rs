//! Multi-Paxos with a static leader and amortised phase 1: after one
//! successful prepare, the leader assigns each pending operation the
//! next log slot and runs phase 2 for it; a slot commits once a quorum
//! has accepted it.

use vstd::prelude::*;
use crate::collections::{copy_vec, insert_entry, KeyMap, Tally};
use crate::net::{broadcast_with, env_of, sends_to_all, Envelope, NodeId, StepCtx};
use crate::paxos_synod::{accept_ok, prepare_ok};

verus! {

/// Wire message.
#[derive(Clone, Debug)]
pub enum Msg {
    /// Leader to acceptors: prepare for ballot `b` (phase 1).
    Prepare {
        /// Ballot.
        b: u32,
    },
    /// Acceptor to leader: promise, with the acceptor's log.
    Promise {
        /// Ballot.
        b: u32,
        /// The acceptor's per-slot accepted `(ballot, op)`.
        log: Vec<Option<(u32, u32)>>,
    },
    /// Leader to acceptors: accept op `op` at slot `i` (phase 2).
    Accept {
        /// Ballot.
        b: u32,
        /// Slot index.
        i: u32,
        /// Operation.
        op: u32,
    },
    /// Acceptor to leader: accepted slot `i`.
    Accepted {
        /// Ballot.
        b: u32,
        /// Slot.
        i: u32,
    },
}

/// Multi-Paxos node combining proposer and acceptor.
pub struct MpNode {
    /// This node's identity.
    pub id: NodeId,
    /// All nodes, this one included.
    pub everyone: Vec<NodeId>,
    /// Whether this node is the static leader.
    pub is_leader: bool,
    /// Pending operations (leader only).
    pub pending: Vec<u32>,
    /// Initial ballot (leader only).
    pub initial_ballot: u32,
    /// Acceptor's promised ballot.
    pub promised: Option<u32>,
    /// Per-slot accepted `(ballot, op)`.
    pub log: Vec<Option<(u32, u32)>>,
    /// Leader's collected promises, by sender.
    pub promises: KeyMap<NodeId, Vec<Option<(u32, u32)>>>,
    /// Leader's per-slot acceptances.
    pub accepteds: Tally<u32>,
    /// Leader's current ballot.
    pub current_ballot: u32,
    /// Number of committed slots.
    pub commit_index: u32,
    /// Whether the leader has completed phase 1.
    pub leader_phase1_done: bool,
    /// Whether the leader has started.
    pub started: bool,
}

/// The `Accept` broadcasts for `ops` placed in consecutive slots from
/// `start`, all at ballot `b`.
pub open spec fn accept_batch(
    from: NodeId,
    peers: Seq<NodeId>,
    now: u64,
    b: u32,
    start: int,
    ops: Seq<u32>,
) -> Seq<Envelope<Msg>>
    decreases ops.len(),
{
    if ops.len() == 0 {
        Seq::empty()
    } else {
        accept_batch(from, peers, now, b, start, ops.drop_last()) + sends_to_all(
            from,
            peers,
            now,
            Msg::Accept { b, i: (start + ops.len() - 1) as u32, op: ops.last() },
        )
    }
}

/// `log` extended with empty slots up to length `n`.
pub open spec fn pad_log(log: Seq<Option<(u32, u32)>>, n: int) -> Seq<Option<(u32, u32)>> {
    if log.len() >= n {
        log
    } else {
        log + Seq::new((n - log.len()) as nat, |k: int| None)
    }
}

/// The leader's phase-2 accepts put its operations in consecutive slots
/// from `start`: the `j`-th operation is sent to every peer, in order,
/// for slot `start + j`, so no two operations share a slot.
pub proof fn lemma_accept_slots(from: NodeId, peers: Seq<NodeId>, now: u64, b: u32, start: int, ops: Seq<u32>)
    requires
        0 <= start,
        start + ops.len() <= u32::MAX,
    ensures
        accept_batch(from, peers, now, b, start, ops).len() == ops.len() * peers.len(),
        forall|j: int, k: int|
            0 <= j < ops.len() && 0 <= k < peers.len() ==> #[trigger] accept_batch(from, peers, now, b, start, ops)[j * peers.len() + k]
                == env_of(from, peers[k], now, Msg::Accept { b, i: (start + j) as u32, op: ops[j] }),
    decreases ops.len(),
{
    let np = peers.len() as int;
    if ops.len() > 0 {
        let m = ops.len() - 1;
        let init = ops.drop_last();
        lemma_accept_slots(from, peers, now, b, start, init);
        let prev = accept_batch(from, peers, now, b, start, init);
        let all = accept_batch(from, peers, now, b, start, ops);
        assert(m * np + np == ops.len() * np) by (nonlinear_arith)
            requires m == ops.len() - 1;
        assert forall|j: int, k: int| 0 <= j < ops.len() && 0 <= k < np implies #[trigger] all[j * np + k] == env_of(
            from,
            peers[k],
            now,
            Msg::Accept { b, i: (start + j) as u32, op: ops[j] },
        ) by {
            if j < m {
                assert((j + 1) * np <= m * np) by (nonlinear_arith)
                    requires j + 1 <= m, np >= 0;
                assert(j * np + np == (j + 1) * np) by (nonlinear_arith);
                assert(j * np + k >= 0) by (nonlinear_arith)
                    requires j >= 0, k >= 0, np >= 0;
                assert(all[j * np + k] == prev[j * np + k]);
                assert(init[j] == ops[j]);
            } else {
                assert(j * np + k - prev.len() == k);
            }
        }
    }
}

impl MpNode {
    /// A majority of `everyone`.
    pub open spec fn quorum_spec(&self) -> int {
        self.everyone@.len() as int / 2 + 1
    }

    /// Build a Multi-Paxos node.
    pub fn new(id: NodeId, everyone: Vec<NodeId>, is_leader: bool, pending: Vec<u32>, initial_ballot: u32) -> (s: Self)
        ensures
            s.id == id,
            s.everyone@ == everyone@,
            s.is_leader == is_leader,
            s.pending@ == pending@,
            s.initial_ballot == initial_ballot,
            s.promised is None,
            s.log@.len() == 0,
            s.promises@ == Map::<NodeId, Vec<Option<(u32, u32)>>>::empty(),
            s.promises.entries().len() == 0,
            forall|k: u32| #[trigger] s.accepteds.voters(k) == Set::<NodeId>::empty(),
            s.current_ballot == 0,
            s.commit_index == 0,
            !s.leader_phase1_done,
            !s.started,
    {
        MpNode {
            id,
            everyone,
            is_leader,
            pending,
            initial_ballot,
            promised: None,
            log: Vec::new(),
            promises: KeyMap::new(),
            accepteds: Tally::new(),
            current_ballot: 0,
            commit_index: 0,
            leader_phase1_done: false,
            started: false,
        }
    }

    fn quorum(&self) -> (r: usize)
        ensures
            r == self.quorum_spec(),
    {
        self.everyone.len() / 2 + 1
    }

    /// First tick: the leader starts phase 1 with its initial ballot.
    pub fn on_tick(&mut self, ctx: &mut StepCtx<Msg>)
        ensures
            final(ctx).now == old(ctx).now,
            final(ctx).timers@ == old(ctx).timers@,
            final(ctx).rng == old(ctx).rng,
            if old(self).is_leader && !old(self).started {
                &&& *final(self) == (MpNode {
                    started: true,
                    current_ballot: old(self).initial_ballot,
                    ..*old(self)
                })
                &&& final(ctx).outbox@ == old(ctx).outbox@ + sends_to_all(
                    old(self).id,
                    old(self).everyone@,
                    old(ctx).now,
                    Msg::Prepare { b: old(self).initial_ballot },
                )
            } else {
                &&& *final(self) == *old(self)
                &&& final(ctx).outbox@ == old(ctx).outbox@
            },
    {
        if !self.is_leader || self.started {
            return;
        }
        self.started = true;
        self.current_ballot = self.initial_ballot;
        let b = self.current_ballot;
        broadcast_with(
            ctx,
            self.id,
            &self.everyone,
            || -> (r: Msg) ensures r == (Msg::Prepare { b }) { Msg::Prepare { b } },
            Ghost(Msg::Prepare { b }),
        );
    }

    /// Assign each pending operation the next slot and broadcast its
    /// `Accept`.
    fn run_phase2(&mut self, ctx: &mut StepCtx<Msg>)
        ensures
            final(ctx).now == old(ctx).now,
            final(ctx).timers@ == old(ctx).timers@,
            final(ctx).rng == old(ctx).rng,
            final(self).pending@.len() == 0,
            final(self).log@ == old(self).log@ + old(self).pending@.map_values(
                |op: u32| Some((old(self).current_ballot, op)),
            ),
            final(ctx).outbox@ == old(ctx).outbox@ + accept_batch(
                old(self).id,
                old(self).everyone@,
                old(ctx).now,
                old(self).current_ballot,
                old(self).log@.len() as int,
                old(self).pending@,
            ),
            final(self).id == old(self).id,
            final(self).everyone@ == old(self).everyone@,
            final(self).is_leader == old(self).is_leader,
            final(self).initial_ballot == old(self).initial_ballot,
            final(self).promised == old(self).promised,
            final(self).promises == old(self).promises,
            final(self).accepteds == old(self).accepteds,
            final(self).current_ballot == old(self).current_ballot,
            final(self).commit_index == old(self).commit_index,
            final(self).leader_phase1_done == old(self).leader_phase1_done,
            final(self).started == old(self).started,
    {
        let mut pending = Vec::new();
        std::mem::swap(&mut pending, &mut self.pending);
        let ghost start = self.log@.len() as int;
        let ghost log0 = self.log@;
        let ghost out0 = ctx.outbox@;
        let b = self.current_ballot;
        let mut j: usize = 0;
        while j < pending.len()
            invariant
                j <= pending@.len(),
                self.pending@.len() == 0,
                self.current_ballot == b,
                b == old(self).current_ballot,
                pending@ == old(self).pending@,
                self.id == old(self).id,
                self.everyone@ == old(self).everyone@,
                self.is_leader == old(self).is_leader,
                self.initial_ballot == old(self).initial_ballot,
                self.promised == old(self).promised,
                self.promises == old(self).promises,
                self.accepteds == old(self).accepteds,
                self.commit_index == old(self).commit_index,
                self.leader_phase1_done == old(self).leader_phase1_done,
                self.started == old(self).started,
                log0 == old(self).log@,
                start == log0.len(),
                out0 == old(ctx).outbox@,
                ctx.now == old(ctx).now,
                ctx.timers@ == old(ctx).timers@,
                ctx.rng == old(ctx).rng,
                self.log@ == log0 + pending@.take(j as int).map_values(|op: u32| Some((b, op))),
                ctx.outbox@ == out0 + accept_batch(self.id, self.everyone@, ctx.now, b, start, pending@.take(j as int)),
            decreases pending@.len() - j,
        {
            let op = pending[j];
            let i = self.log.len() as u32;
            assert(self.log@.len() == start + j);
            self.log.push(Some((b, op)));
            broadcast_with(
                ctx,
                self.id,
                &self.everyone,
                || -> (r: Msg) ensures r == (Msg::Accept { b, i, op }) { Msg::Accept { b, i, op } },
                Ghost(Msg::Accept { b, i, op }),
            );
            proof {
                let t = pending@.take(j + 1);
                assert(t.drop_last() =~= pending@.take(j as int));
                assert(t.last() == op);
                assert(pending@.take(j + 1).map_values(|op: u32| Some((b, op))) =~= pending@.take(
                    j as int,
                ).map_values(|op: u32| Some((b, op))).push(Some((b, op))));
            }
            j = j + 1;
        }
        assert(pending@.take(j as int) =~= pending@);
    }
}

/// Whether `e` is the `Promise` for ballot `b` carrying a log whose
/// contents are `log`, from `from` to `to` at `now`.
pub open spec fn is_promise(e: Envelope<Msg>, from: NodeId, to: NodeId, now: u64, b: u32, log: Seq<Option<(u32, u32)>>) -> bool {
    &&& e.from == from
    &&& e.to == to
    &&& e.sent_at == now
    &&& e.msg matches Msg::Promise { b: mb, log: ml } && mb == b && ml@ == log
}

impl MpNode {
    /// Handle one delivered message.
    pub fn on_receive(&mut self, env: Envelope<Msg>, ctx: &mut StepCtx<Msg>)
        requires
            match env.msg {
                Msg::Accepted { b, i } => old(self).is_leader && b == old(self).current_ballot
                    && old(self).accepteds.voters(i).insert(env.from).len() >= old(self).quorum_spec() ==> i
                    < u32::MAX,
                _ => true,
            },
        ensures
            old(self).promised matches Some(p) ==> (final(self).promised matches Some(q) && p <= q),
            final(self).commit_index >= old(self).commit_index,
            final(ctx).now == old(ctx).now,
            final(ctx).timers@ == old(ctx).timers@,
            final(ctx).rng == old(ctx).rng,
            final(self).id == old(self).id,
            final(self).everyone@ == old(self).everyone@,
            final(self).is_leader == old(self).is_leader,
            final(self).initial_ballot == old(self).initial_ballot,
            final(self).current_ballot == old(self).current_ballot,
            final(self).started == old(self).started,
            match env.msg {
                Msg::Prepare { b } => if prepare_ok(old(self).promised, b) {
                    &&& *final(self) == (MpNode { promised: Some(b), ..*old(self) })
                    &&& final(ctx).outbox@.len() == old(ctx).outbox@.len() + 1
                    &&& final(ctx).outbox@.drop_last() == old(ctx).outbox@
                    &&& is_promise(final(ctx).outbox@.last(), old(self).id, env.from, old(ctx).now, b, old(self).log@)
                } else {
                    &&& *final(self) == *old(self)
                    &&& final(ctx).outbox@ == old(ctx).outbox@
                },
                Msg::Promise { b, log } => if !old(self).is_leader || b != old(self).current_ballot {
                    &&& *final(self) == *old(self)
                    &&& final(ctx).outbox@ == old(ctx).outbox@
                } else {
                    let ps = insert_entry(old(self).promises.entries(), env.from, log);
                    &&& final(self).promises.entries() == ps
                    &&& final(self).promised == old(self).promised
                    &&& final(self).accepteds == old(self).accepteds
                    &&& final(self).commit_index == old(self).commit_index
                    &&& if ps.len() >= old(self).quorum_spec() && !old(self).leader_phase1_done {
                        &&& final(self).leader_phase1_done
                        &&& final(self).pending@.len() == 0
                        &&& final(self).log@ == old(self).log@ + old(self).pending@.map_values(
                            |op: u32| Some((old(self).current_ballot, op)),
                        )
                        &&& final(ctx).outbox@ == old(ctx).outbox@ + accept_batch(
                            old(self).id,
                            old(self).everyone@,
                            old(ctx).now,
                            old(self).current_ballot,
                            old(self).log@.len() as int,
                            old(self).pending@,
                        )
                    } else {
                        &&& final(self).leader_phase1_done == old(self).leader_phase1_done
                        &&& final(self).pending == old(self).pending
                        &&& final(self).log == old(self).log
                        &&& final(ctx).outbox@ == old(ctx).outbox@
                    }
                },
                Msg::Accept { b, i, op } => if accept_ok(old(self).promised, b) {
                    &&& final(self).promised == Some(b)
                    &&& final(self).log@ == pad_log(old(self).log@, i + 1).update(i as int, Some((b, op)))
                    &&& final(self).pending == old(self).pending
                    &&& final(self).promises == old(self).promises
                    &&& final(self).accepteds == old(self).accepteds
                    &&& final(self).commit_index == old(self).commit_index
                    &&& final(self).leader_phase1_done == old(self).leader_phase1_done
                    &&& final(ctx).outbox@ == old(ctx).outbox@.push(
                        env_of(old(self).id, env.from, old(ctx).now, Msg::Accepted { b, i }),
                    )
                } else {
                    &&& *final(self) == *old(self)
                    &&& final(ctx).outbox@ == old(ctx).outbox@
                },
                Msg::Accepted { b, i } => {
                    &&& final(ctx).outbox@ == old(ctx).outbox@
                    &&& if !old(self).is_leader || b != old(self).current_ballot {
                        *final(self) == *old(self)
                    } else {
                        let voters = old(self).accepteds.voters(i).insert(env.from);
                        &&& final(self).accepteds.voters(i) == voters
                        &&& forall|k: u32| k != i ==> #[trigger] final(self).accepteds.voters(k) == old(self).accepteds.voters(k)
                        &&& final(self).commit_index == if voters.len() >= old(self).quorum_spec() && i + 1 > old(self).commit_index {
                            (i + 1) as u32
                        } else {
                            old(self).commit_index
                        }
                        &&& final(self).promised == old(self).promised
                        &&& final(self).log == old(self).log
                        &&& final(self).pending == old(self).pending
                        &&& final(self).promises == old(self).promises
                        &&& final(self).leader_phase1_done == old(self).leader_phase1_done
                    }
                },
            },
    {
        match env.msg {
            Msg::Prepare { b } => {
                let ok = match self.promised {
                    Some(p) => b > p,
                    None => true,
                };
                if ok {
                    self.promised = Some(b);
                    let log = copy_vec(&self.log);
                    ctx.send(self.id, env.from, Msg::Promise { b, log });
                }
            },
            Msg::Promise { b, log } => {
                if !self.is_leader || b != self.current_ballot {
                    return;
                }
                self.promises.insert(env.from, log);
                if self.promises.len() >= self.quorum() && !self.leader_phase1_done {
                    self.leader_phase1_done = true;
                    self.run_phase2(ctx);
                }
            },
            Msg::Accept { b, i, op } => {
                let ok = match self.promised {
                    Some(p) => b >= p,
                    None => true,
                };
                if ok {
                    self.promised = Some(b);
                    let ghost log0 = self.log@;
                    let ghost s0 = *self;
                    while self.log.len() <= i as usize
                        invariant
                            *self == (MpNode { log: self.log, ..s0 }),
                            self.log@ == pad_log(log0, self.log@.len() as int),
                            self.log@.len() >= log0.len(),
                            self.log@.len() <= if log0.len() > i + 1 { log0.len() as int } else { i + 1 },
                        decreases i + 1 - self.log@.len(),
                    {
                        self.log.push(None);
                        assert(pad_log(log0, self.log@.len() as int) =~= self.log@);
                    }
                    assert(pad_log(log0, i + 1) =~= pad_log(log0, self.log@.len() as int));
                    self.log.set(i as usize, Some((b, op)));
                    ctx.send(self.id, env.from, Msg::Accepted { b, i });
                }
            },
            Msg::Accepted { b, i } => {
                if !self.is_leader || b != self.current_ballot {
                    return;
                }
                let count = self.accepteds.add(i, env.from);
                if count >= self.quorum() && i + 1 > self.commit_index {
                    self.commit_index = i + 1;
                }
            },
        }
    }
}

} // verus!
