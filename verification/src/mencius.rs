//! Mencius: replica `i` of `n` owns the slots `s` with `s mod n = i`
//! and proposes its operations in its own slots; every replica records
//! every proposal and acknowledges it to the owner.

use std::collections::BTreeMap;
use vstd::prelude::*;
use crate::collections::Tally;
use crate::net::{env_of, sends_to_all, Envelope, NodeId, StepCtx};

verus! {

/// Wire message.
#[derive(Clone, Copy, Debug)]
pub enum Msg {
    /// The owner proposes an op (0 means no-op) at a slot.
    Propose {
        /// Slot.
        slot: u32,
        /// Operation.
        op: u32,
    },
    /// A replica acknowledges the proposal at a slot.
    Ack {
        /// Slot.
        slot: u32,
    },
}

/// Mencius node.
pub struct MenciusNode {
    /// This node's identity.
    pub id: NodeId,
    /// All replicas.
    pub everyone: Vec<NodeId>,
    /// This node's index in the rotation.
    pub index: u32,
    /// Operations to propose in this node's slots.
    pub pending: Vec<u32>,
    /// Per-slot proposed op.
    pub log: BTreeMap<u32, u32>,
    /// Acknowledgers per owned slot.
    pub acks: Tally<u32>,
    /// The first slot not yet considered for proposing.
    pub next_slot_to_propose: u32,
    /// Whether the node has started.
    pub started: bool,
}

/// The first slot at or after `x` owned by replica `index` of `n`: the
/// owner of slot `s` is replica `s mod n`.
pub open spec fn owned_from(x: int, n: int, index: int) -> int {
    if index >= x % n {
        x + (index - x % n)
    } else {
        x + (index + n - x % n)
    }
}

pub proof fn lemma_owned_from(x: int, n: int, index: int)
    requires
        0 <= x,
        0 <= index < n,
    ensures
        owned_from(x, n, index) % n == index,
        x <= owned_from(x, n, index) < x + n,
{
    let r = x % n;
    let q = x / n;
    vstd::arithmetic::div_mod::lemma_fundamental_div_mod(x, n);
    let t = owned_from(x, n, index);
    let q2 = if index >= r { q } else { q + 1 };
    if index >= r {
        assert(t == n * q + index);
    } else {
        assert(t == n * (q + 1) + index) by (nonlinear_arith)
            requires
                t == x + (index + n - r),
                x == n * q + r;
    }
    vstd::arithmetic::div_mod::lemma_mod_multiples_vanish(q2, index, n);
    vstd::arithmetic::div_mod::lemma_small_mod(index as nat, n as nat);
}

/// The slot of the `j`-th pending op when proposing from `start`.
pub open spec fn slot_of(start: int, n: int, index: int, j: int) -> int {
    owned_from(start, n, index) + j * n
}

/// Every slot in which replica `index` of `n` proposes, starting from
/// `start`, is one it owns and lies at or after `start`; distinct
/// pending operations go to distinct slots. Hence no two replicas
/// propose in the same slot.
pub proof fn lemma_proposals_in_own_slots(start: int, n: int, index: int, j: int, k: int)
    requires
        0 <= start,
        0 <= index < n,
        0 <= j,
        0 <= k,
    ensures
        slot_of(start, n, index, j) % n == index,
        slot_of(start, n, index, j) >= start,
        j != k ==> slot_of(start, n, index, j) != slot_of(start, n, index, k),
{
    lemma_owned_from(start, n, index);
    let b = owned_from(start, n, index);
    vstd::arithmetic::div_mod::lemma_mod_multiples_vanish(j, b, n);
    assert(j * n == n * j) by (nonlinear_arith);
    assert(j * n >= 0) by (nonlinear_arith)
        requires
            j >= 0,
            n > 0;
    assert(j != k ==> j * n != k * n) by (nonlinear_arith)
        requires
            n > 0;
}

/// The `Propose` broadcasts for `ops` in the owned slots from `start`.
pub open spec fn propose_batch(from: NodeId, peers: Seq<NodeId>, now: u64, start: int, n: int, index: int, ops: Seq<u32>) -> Seq<Envelope<Msg>>
    decreases ops.len(),
{
    if ops.len() == 0 {
        Seq::empty()
    } else {
        propose_batch(from, peers, now, start, n, index, ops.drop_last()) + sends_to_all(
            from,
            peers,
            now,
            Msg::Propose { slot: slot_of(start, n, index, ops.len() - 1) as u32, op: ops.last() },
        )
    }
}

/// Replica `index` of `n` proposes its `j`-th pending operation to every
/// peer, in order, in the slot `slot_of(start, n, index, j)`: by
/// `lemma_proposals_in_own_slots` a slot it owns, distinct for each
/// operation.
pub proof fn lemma_propose_slots(from: NodeId, peers: Seq<NodeId>, now: u64, start: int, n: int, index: int, ops: Seq<u32>)
    requires
        0 <= start,
        0 <= index < n,
    ensures
        propose_batch(from, peers, now, start, n, index, ops).len() == ops.len() * peers.len(),
        forall|j: int, k: int|
            0 <= j < ops.len() && 0 <= k < peers.len() ==> #[trigger] propose_batch(from, peers, now, start, n, index, ops)[j * peers.len() + k]
                == env_of(from, peers[k], now, Msg::Propose { slot: slot_of(start, n, index, j) as u32, op: ops[j] }),
    decreases ops.len(),
{
    let np = peers.len() as int;
    if ops.len() > 0 {
        let m = ops.len() - 1;
        let init = ops.drop_last();
        lemma_propose_slots(from, peers, now, start, n, index, init);
        let prev = propose_batch(from, peers, now, start, n, index, init);
        let all = propose_batch(from, peers, now, start, n, index, ops);
        assert(all == prev + sends_to_all(
            from,
            peers,
            now,
            Msg::Propose { slot: slot_of(start, n, index, ops.len() - 1) as u32, op: ops.last() },
        ));
        assert(all.len() == prev.len() + np);
        assert(prev.len() == m * np);
        assert(m * np + np == ops.len() * np) by (nonlinear_arith)
            requires m == ops.len() - 1;
        assert(all.len() == ops.len() * np);
        assert forall|j: int, k: int| 0 <= j < ops.len() && 0 <= k < np implies #[trigger] all[j * np + k] == env_of(
            from,
            peers[k],
            now,
            Msg::Propose { slot: slot_of(start, n, index, j) as u32, op: ops[j] },
        ) by {
            if j < m {
                assert((j + 1) * np <= m * np) by (nonlinear_arith)
                    requires j + 1 <= m, np >= 0;
                assert(j * np + np == (j + 1) * np) by (nonlinear_arith);
                assert(j * np + k >= 0) by (nonlinear_arith)
                    requires j >= 0, k >= 0, np >= 0;
                assert(all[j * np + k] == prev[j * np + k]);
                assert(init[j] == ops[j]);
            } else {
                assert(j * np + k - prev.len() == k);
            }
        }
    } else {
        assert(propose_batch(from, peers, now, start, n, index, ops) =~= Seq::<Envelope<Msg>>::empty());
        assert(ops.len() * np == 0) by (nonlinear_arith)
            requires ops.len() == 0;
    }
}

/// The log after proposing `ops` in the owned slots from `start`.
pub open spec fn log_after(log: Map<u32, u32>, start: int, n: int, index: int, ops: Seq<u32>) -> Map<u32, u32>
    decreases ops.len(),
{
    if ops.len() == 0 {
        log
    } else {
        log_after(log, start, n, index, ops.drop_last()).insert(slot_of(start, n, index, ops.len() - 1) as u32, ops.last())
    }
}

impl MenciusNode {
    /// The number of replicas.
    pub open spec fn n_spec(&self) -> int {
        self.everyone@.len() as int
    }

    /// A majority of the replicas.
    pub open spec fn quorum_spec(&self) -> int {
        self.everyone@.len() as int / 2 + 1
    }

    /// The replica count fits a slot number and the index names a replica.
    pub open spec fn inv(&self) -> bool {
        0 < self.n_spec() <= u32::MAX && self.index < self.n_spec()
    }

    /// Build a Mencius node.
    pub fn new(id: NodeId, everyone: Vec<NodeId>, index: u32, pending: Vec<u32>) -> (s: Self)
        ensures
            s.id == id,
            s.everyone@ == everyone@,
            s.index == index,
            s.pending@ == pending@,
            s.log@ == Map::<u32, u32>::empty(),
            forall|k: u32| #[trigger] s.acks.voters(k) == Set::<NodeId>::empty(),
            s.next_slot_to_propose == 0,
            !s.started,
    {
        MenciusNode {
            id,
            everyone,
            index,
            pending,
            log: BTreeMap::new(),
            acks: Tally::new(),
            next_slot_to_propose: 0,
            started: false,
        }
    }

    fn is_owner(&self, slot: u32) -> (r: bool)
        requires
            self.inv(),
        ensures
            r == (slot as int % self.n_spec() == self.index),
    {
        slot % (self.everyone.len() as u32) == self.index
    }

    /// First tick: propose each pending operation in the next slot this
    /// node owns, recording it in the log and sending it to everyone.
    pub fn on_tick(&mut self, ctx: &mut StepCtx<Msg>)
        requires
            old(self).inv(),
            slot_of(old(self).next_slot_to_propose as int, old(self).n_spec(), old(self).index as int, old(self).pending@.len() as int) < u32::MAX,
        ensures
            final(ctx).now == old(ctx).now,
            final(ctx).timers@ == old(ctx).timers@,
            final(ctx).rng == old(ctx).rng,
            if !old(self).started {
                let start = old(self).next_slot_to_propose as int;
                let ops = old(self).pending@;
                &&& final(self).pending@.len() == 0
                &&& final(self).log@ == log_after(old(self).log@, start, old(self).n_spec(), old(self).index as int, ops)
                &&& ops.len() > 0 ==> final(self).next_slot_to_propose == slot_of(start, old(self).n_spec(), old(self).index as int, ops.len() - 1) + 1
                &&& ops.len() == 0 ==> final(self).next_slot_to_propose == old(self).next_slot_to_propose
                &&& *final(self) == (MenciusNode {
                    started: true,
                    pending: final(self).pending,
                    log: final(self).log,
                    next_slot_to_propose: final(self).next_slot_to_propose,
                    ..*old(self)
                })
                &&& final(ctx).outbox@ == old(ctx).outbox@ + propose_batch(
                    old(self).id,
                    old(self).everyone@,
                    old(ctx).now,
                    start,
                    old(self).n_spec(),
                    old(self).index as int,
                    ops,
                )
            } else {
                &&& *final(self) == *old(self)
                &&& final(ctx).outbox@ == old(ctx).outbox@
            },
    {
        if self.started {
            return;
        }
        self.started = true;
        let mut pending = Vec::new();
        std::mem::swap(&mut pending, &mut self.pending);
        let n = self.everyone.len() as u32;
        let ghost start = old(self).next_slot_to_propose as int;
        let ghost nn = self.n_spec();
        let ghost idx = self.index as int;
        let ghost s0 = *self;
        let ghost out0 = ctx.outbox@;
        proof { lemma_owned_from(start, nn, idx); }
        let mut j: usize = 0;
        while j < pending.len()
            invariant
                j <= pending@.len(),
                pending@ == old(self).pending@,
                self.inv(),
                n == nn,
                nn == self.n_spec(),
                idx == self.index,
                start == old(self).next_slot_to_propose,
                *self == (MenciusNode { log: self.log, next_slot_to_propose: self.next_slot_to_propose, ..s0 }),
                s0 == (MenciusNode { started: true, pending: s0.pending, ..*old(self) }),
                s0.pending@.len() == 0,
                slot_of(start, nn, idx, pending@.len() as int) < u32::MAX,
                owned_from(start, nn, idx) % nn == idx,
                start <= owned_from(start, nn, idx),
                j == 0 ==> self.next_slot_to_propose == start,
                j > 0 ==> self.next_slot_to_propose == slot_of(start, nn, idx, j - 1) + 1,
                self.log@ == log_after(old(self).log@, start, nn, idx, pending@.take(j as int)),
                out0 == old(ctx).outbox@,
                ctx.now == old(ctx).now,
                ctx.timers@ == old(ctx).timers@,
                ctx.rng == old(ctx).rng,
                ctx.outbox@ == out0 + propose_batch(self.id, self.everyone@, ctx.now, start, nn, idx, pending@.take(j as int)),
            decreases pending@.len() - j,
        {
            let op = pending[j];
            let x = self.next_slot_to_propose;
            proof {
                assert(slot_of(start, nn, idx, j as int) < u32::MAX) by (nonlinear_arith)
                    requires
                        slot_of(start, nn, idx, pending@.len() as int) < u32::MAX,
                        j < pending@.len(),
                        nn > 0;
                if j > 0 {
                    let base = owned_from(start, nn, idx);
                    let prev = slot_of(start, nn, idx, j - 1);
                    assert(prev == nn * (j - 1) + base) by (nonlinear_arith)
                        requires
                            prev == base + (j - 1) * nn;
                    assert(prev % nn == idx) by {
                        vstd::arithmetic::div_mod::lemma_mod_multiples_vanish(j - 1, base, nn);
                    }
                    assert((prev + 1) % nn == (idx + 1) % nn) by {
                        vstd::arithmetic::div_mod::lemma_add_mod_noop(prev, 1, nn);
                        if nn > 1 {
                            vstd::arithmetic::div_mod::lemma_small_mod(1, nn as nat);
                        }
                    }
                    if idx + 1 < nn {
                        vstd::arithmetic::div_mod::lemma_small_mod((idx + 1) as nat, nn as nat);
                    } else {
                        vstd::arithmetic::div_mod::lemma_mod_self_0(nn);
                    }
                    assert(owned_from(prev + 1, nn, idx) == prev + nn);
                    assert(slot_of(start, nn, idx, j as int) == prev + nn) by (nonlinear_arith)
                        requires
                            prev == base + (j - 1) * nn,
                            slot_of(start, nn, idx, j as int) == base + j * nn;
                } else {
                    assert(slot_of(start, nn, idx, 0) == owned_from(start, nn, idx));
                }
            }
            let r = x % n;
            let s = if self.index >= r { x + (self.index - r) } else { x + ((n - r) + self.index) };
            assert(s == slot_of(start, nn, idx, j as int));
            self.next_slot_to_propose = s + 1;
            self.log.insert(s, op);
            ctx.broadcast(self.id, &self.everyone, Msg::Propose { slot: s, op });
            assert(pending@.take(j + 1).drop_last() =~= pending@.take(j as int));
            j = j + 1;
        }
        assert(pending@.take(j as int) =~= pending@);
    }

    /// Handle one delivered message: a proposal is recorded and
    /// acknowledged to its sender; the owner of a slot counts its
    /// acknowledgements.
    pub fn on_receive(&mut self, env: Envelope<Msg>, ctx: &mut StepCtx<Msg>)
        requires
            old(self).inv(),
        ensures
            final(ctx).now == old(ctx).now,
            final(ctx).timers@ == old(ctx).timers@,
            final(ctx).rng == old(ctx).rng,
            match env.msg {
                Msg::Propose { slot, op } => {
                    &&& final(self).log@ == old(self).log@.insert(slot, op)
                    &&& *final(self) == (MenciusNode { log: final(self).log, ..*old(self) })
                    &&& final(ctx).outbox@ == old(ctx).outbox@.push(env_of(old(self).id, env.from, old(ctx).now, Msg::Ack { slot }))
                },
                Msg::Ack { slot } => {
                    &&& final(ctx).outbox@ == old(ctx).outbox@
                    &&& if slot as int % old(self).n_spec() != old(self).index {
                        *final(self) == *old(self)
                    } else {
                        &&& final(self).acks.voters(slot) == old(self).acks.voters(slot).insert(env.from)
                        &&& forall|k: u32| k != slot ==> #[trigger] final(self).acks.voters(k) == old(self).acks.voters(k)
                        &&& *final(self) == (MenciusNode { acks: final(self).acks, ..*old(self) })
                    }
                },
            },
    {
        match env.msg {
            Msg::Propose { slot, op } => {
                self.log.insert(slot, op);
                ctx.send(self.id, env.from, Msg::Ack { slot });
            },
            Msg::Ack { slot } => {
                if !self.is_owner(slot) {
                    return;
                }
                let _ = self.acks.add(slot, env.from);
            },
        }
    }
}

} // verus!
