//! Dolev-Strong signed broadcast with a round budget. A follower accepts
//! a value signed first by the commander with a chain of distinct
//! signers no longer than the budget, relays it once with its own
//! signature while the budget allows, and decides the single value it
//! has seen (or `false` once it has seen both).

use vstd::prelude::*;
use crate::collections::{copy_vec, KeySet};
use crate::net::{Adversary, Envelope, NodeId, SimRng, StepCtx, Time};
use crate::raft::others;

verus! {

/// Wire message.
#[derive(Clone, Debug)]
pub enum Msg {
    /// A signed value with its chain of forwarding signers.
    Signed {
        /// The value being asserted.
        v: bool,
        /// Ordered list of signers (commander first).
        chain: Vec<NodeId>,
    },
}

/// A signed-broadcast process.
pub struct SbNode {
    /// This node's identity.
    pub id: NodeId,
    /// All nodes; the first is the commander.
    pub everyone: Vec<NodeId>,
    /// Whether this node is the commander.
    pub is_commander: bool,
    /// Commander's value.
    pub intent: bool,
    /// For a Byzantine commander: an alternative value and the nodes
    /// that receive it.
    pub equivocation: Option<(bool, Vec<NodeId>)>,
    /// Allowed number of forwarding rounds.
    pub rounds: usize,
    /// Values seen with a valid chain.
    pub seen: KeySet<bool>,
    /// Decision.
    pub decision: Option<bool>,
    /// Whether the commander has started.
    pub started: bool,
}

/// Whether `e` carries `Signed { v, chain }` from `from` to `to` at
/// `now`, the chain's contents being `chain`.
pub open spec fn is_signed(e: Envelope<Msg>, from: NodeId, to: NodeId, now: u64, v: bool, chain: Seq<NodeId>) -> bool {
    &&& e.from == from
    &&& e.to == to
    &&& e.sent_at == now
    &&& e.msg matches Msg::Signed { v: mv, chain: mc } && mv == v && mc@ == chain
}

/// The value a (possibly equivocating) commander sends to `peer`.
pub open spec fn value_for(intent: bool, equivocation: Option<(bool, Vec<NodeId>)>, peer: NodeId) -> bool {
    match equivocation {
        Some((alt, targets)) => if targets@.contains(peer) { alt } else { intent },
        None => intent,
    }
}

/// A chain is acceptable: commander first, distinct signers, and at most
/// `rounds` forwards.
pub open spec fn chain_ok(chain: Seq<NodeId>, commander: NodeId, rounds: int) -> bool {
    &&& chain.len() >= 1
    &&& chain[0] == commander
    &&& chain.no_duplicates()
    &&& chain.len() <= rounds + 1
}

/// Whether `x` occurs in `s`.
fn contains_node(s: &Vec<NodeId>, x: NodeId) -> (r: bool)
    ensures
        r == s@.contains(x),
{
    let mut i: usize = 0;
    while i < s.len()
        invariant
            i <= s@.len(),
            forall|k: int| 0 <= k < i ==> s@[k] != x,
        decreases s@.len() - i,
    {
        if s[i].0 == x.0 {
            assert(s@[i as int] == x);
            return true;
        }
        i = i + 1;
    }
    false
}

/// Whether no node occurs twice in `s`.
fn all_distinct(s: &Vec<NodeId>) -> (r: bool)
    ensures
        r == s@.no_duplicates(),
{
    let mut i: usize = 0;
    while i < s.len()
        invariant
            i <= s@.len(),
            forall|a: int, b: int| 0 <= a < i && 0 <= b < s@.len() && a != b ==> s@[a] != s@[b],
        decreases s@.len() - i,
    {
        let mut j: usize = 0;
        while j < s.len()
            invariant
                i < s@.len(),
                j <= s@.len(),
                forall|a: int, b: int| 0 <= a < i && 0 <= b < s@.len() && a != b ==> s@[a] != s@[b],
                forall|b: int| 0 <= b < j && b != i ==> s@[i as int] != s@[b],
            decreases s@.len() - j,
        {
            if j != i && s[i].0 == s[j].0 {
                assert(s@[i as int] == s@[j as int]);
                return false;
            }
            j = j + 1;
        }
        i = i + 1;
    }
    true
}

impl SbNode {
    /// Build a commander.
    pub fn commander(
        id: NodeId,
        everyone: Vec<NodeId>,
        intent: bool,
        equivocation: Option<(bool, Vec<NodeId>)>,
        rounds: usize,
    ) -> (s: Self)
        ensures
            s.id == id,
            s.everyone@ == everyone@,
            s.is_commander,
            s.intent == intent,
            s.equivocation == equivocation,
            s.rounds == rounds,
            s.seen@ == Set::<bool>::empty(),
            s.decision is None,
            !s.started,
    {
        SbNode {
            id,
            everyone,
            is_commander: true,
            intent,
            equivocation,
            rounds,
            seen: KeySet::new(),
            decision: None,
            started: false,
        }
    }

    /// Build a follower.
    pub fn follower(id: NodeId, everyone: Vec<NodeId>, rounds: usize) -> (s: Self)
        ensures
            s.id == id,
            s.everyone@ == everyone@,
            !s.is_commander,
            !s.intent,
            s.equivocation is None,
            s.rounds == rounds,
            s.seen@ == Set::<bool>::empty(),
            s.decision is None,
            !s.started,
    {
        SbNode {
            id,
            everyone,
            is_commander: false,
            intent: false,
            equivocation: None,
            rounds,
            seen: KeySet::new(),
            decision: None,
            started: false,
        }
    }

    /// First tick: the commander sends its signed value (or the
    /// equivocating alternative) to every other node.
    pub fn on_tick(&mut self, ctx: &mut StepCtx<Msg>)
        ensures
            final(ctx).now == old(ctx).now,
            final(ctx).timers@ == old(ctx).timers@,
            final(ctx).rng == old(ctx).rng,
            if old(self).is_commander && !old(self).started {
                let peers = others(old(self).everyone@, old(self).id);
                &&& *final(self) == (SbNode { started: true, ..*old(self) })
                &&& final(ctx).outbox@.len() == old(ctx).outbox@.len() + peers.len()
                &&& final(ctx).outbox@.take(old(ctx).outbox@.len() as int) == old(ctx).outbox@
                &&& forall|k: int| 0 <= k < peers.len() ==> is_signed(
                    #[trigger] final(ctx).outbox@[old(ctx).outbox@.len() + k],
                    old(self).id,
                    peers[k],
                    old(ctx).now,
                    value_for(old(self).intent, old(self).equivocation, peers[k]),
                    seq![old(self).id],
                )
            } else {
                &&& *final(self) == *old(self)
                &&& final(ctx).outbox@ == old(ctx).outbox@
            },
    {
        if !self.is_commander || self.started {
            return;
        }
        self.started = true;
        let ghost out0 = ctx.outbox@;
        let mut i: usize = 0;
        while i < self.everyone.len()
            invariant
                i <= self.everyone@.len(),
                *self == (SbNode { started: true, ..*old(self) }),
                out0 == old(ctx).outbox@,
                ctx.now == old(ctx).now,
                ctx.timers@ == old(ctx).timers@,
                ctx.rng == old(ctx).rng,
                ctx.outbox@.len() == out0.len() + others(self.everyone@.take(i as int), self.id).len(),
                ctx.outbox@.take(out0.len() as int) == out0,
                forall|k: int| 0 <= k < others(self.everyone@.take(i as int), self.id).len() ==> is_signed(
                    #[trigger] ctx.outbox@[out0.len() + k],
                    self.id,
                    others(self.everyone@.take(i as int), self.id)[k],
                    ctx.now,
                    value_for(self.intent, self.equivocation, others(self.everyone@.take(i as int), self.id)[k]),
                    seq![self.id],
                ),
            decreases self.everyone@.len() - i,
        {
            let peer = self.everyone[i];
            let ghost before = others(self.everyone@.take(i as int), self.id);
            proof {
                reveal(Seq::filter);
                assert(self.everyone@.take(i + 1).drop_last() =~= self.everyone@.take(i as int));
            }
            if peer.0 != self.id.0 {
                let v = match &self.equivocation {
                    Some((alt, tgts)) => if contains_node(tgts, peer) { *alt } else { self.intent },
                    None => self.intent,
                };
                let mut chain = Vec::new();
                chain.push(self.id);
                let ghost o = ctx.outbox@;
                ctx.send(self.id, peer, Msg::Signed { v, chain });
                assert(chain@ =~= seq![self.id]);
                assert(others(self.everyone@.take(i + 1), self.id) == before.push(peer));
                assert forall|k: int| 0 <= k < before.len() + 1 implies is_signed(
                    #[trigger] ctx.outbox@[out0.len() + k],
                    self.id,
                    before.push(peer)[k],
                    ctx.now,
                    value_for(self.intent, self.equivocation, before.push(peer)[k]),
                    seq![self.id],
                ) by {
                    if k < before.len() {
                        assert(ctx.outbox@[out0.len() + k] == o[out0.len() + k]);
                    }
                }
                assert(ctx.outbox@.take(out0.len() as int) =~= o.take(out0.len() as int));
            } else {
                assert(others(self.everyone@.take(i + 1), self.id) == before);
            }
            i = i + 1;
        }
        assert(self.everyone@.take(i as int) =~= self.everyone@);
    }
}

/// The nodes of `everyone` that are not in `chain`, in order.
pub open spec fn outside_chain(everyone: Seq<NodeId>, chain: Seq<NodeId>) -> Seq<NodeId> {
    everyone.filter(|p: NodeId| !chain.contains(p))
}

impl SbNode {
    /// Handle one delivered signed value. Invalid chains (not started by
    /// the commander, repeating a signer, or longer than the budget) are
    /// ignored. A follower relays a value new to it, signed by itself, to
    /// every node not yet on the chain while the budget allows, and
    /// decides the single value it has seen, or `false` once it has seen
    /// both.
    pub fn on_receive(&mut self, env: Envelope<Msg>, ctx: &mut StepCtx<Msg>)
        requires
            old(self).everyone@.len() > 0,
        ensures
            old(self).seen@.subset_of(final(self).seen@),
            final(ctx).now == old(ctx).now,
            final(ctx).timers@ == old(ctx).timers@,
            final(ctx).rng == old(ctx).rng,
            match env.msg {
                Msg::Signed { v, chain } => if !chain_ok(chain@, old(self).everyone@[0], old(self).rounds as int) {
                    &&& *final(self) == *old(self)
                    &&& final(ctx).outbox@ == old(ctx).outbox@
                } else {
                    let seen = old(self).seen@.insert(v);
                    let relay = !old(self).is_commander && !old(self).seen@.contains(v)
                        && chain@.len() <= old(self).rounds && !chain@.contains(old(self).id);
                    let new_chain = chain@.push(old(self).id);
                    let peers = outside_chain(old(self).everyone@, new_chain);
                    &&& final(self).seen@ == seen
                    &&& final(self).decision == if old(self).is_commander {
                        old(self).decision
                    } else if seen.len() == 1 {
                        Some(v)
                    } else {
                        Some(false)
                    }
                    &&& *final(self) == (SbNode { seen: final(self).seen, decision: final(self).decision, ..*old(self) })
                    &&& if relay {
                        &&& final(ctx).outbox@.len() == old(ctx).outbox@.len() + peers.len()
                        &&& final(ctx).outbox@.take(old(ctx).outbox@.len() as int) == old(ctx).outbox@
                        &&& forall|k: int| 0 <= k < peers.len() ==> is_signed(
                            #[trigger] final(ctx).outbox@[old(ctx).outbox@.len() + k],
                            old(self).id,
                            peers[k],
                            old(ctx).now,
                            v,
                            new_chain,
                        )
                    } else {
                        final(ctx).outbox@ == old(ctx).outbox@
                    }
                },
            },
    {
        let Msg::Signed { v, chain } = env.msg;
        let commander = self.everyone[0];
        if chain.len() == 0 || chain[0].0 != commander.0 {
            return;
        }
        if !all_distinct(&chain) {
            return;
        }
        if chain.len() - 1 > self.rounds {
            return;
        }
        let was_new = self.seen.insert(v);
        if !self.is_commander && was_new && chain.len() <= self.rounds && !contains_node(&chain, self.id) {
            let mut new_chain = copy_vec(&chain);
            new_chain.push(self.id);
            let ghost out0 = ctx.outbox@;
            let mut i: usize = 0;
            while i < self.everyone.len()
                invariant
                    i <= self.everyone@.len(),
                    self.everyone@ == old(self).everyone@,
                    self.id == old(self).id,
                    new_chain@ == chain@.push(self.id),
                    out0 == old(ctx).outbox@,
                    ctx.now == old(ctx).now,
                    ctx.timers@ == old(ctx).timers@,
                    ctx.rng == old(ctx).rng,
                ctx.rng == old(ctx).rng,
                    ctx.outbox@.len() == out0.len() + outside_chain(self.everyone@.take(i as int), new_chain@).len(),
                    ctx.outbox@.take(out0.len() as int) == out0,
                    forall|k: int| 0 <= k < outside_chain(self.everyone@.take(i as int), new_chain@).len() ==> is_signed(
                        #[trigger] ctx.outbox@[out0.len() + k],
                        self.id,
                        outside_chain(self.everyone@.take(i as int), new_chain@)[k],
                        ctx.now,
                        v,
                        new_chain@,
                    ),
                decreases self.everyone@.len() - i,
            {
                let peer = self.everyone[i];
                let ghost before = outside_chain(self.everyone@.take(i as int), new_chain@);
                proof {
                    reveal(Seq::filter);
                    assert(self.everyone@.take(i + 1).drop_last() =~= self.everyone@.take(i as int));
                }
                if peer.0 != self.id.0 && !contains_node(&new_chain, peer) {
                    let c = copy_vec(&new_chain);
                    let ghost o = ctx.outbox@;
                    ctx.send(self.id, peer, Msg::Signed { v, chain: c });
                    assert(outside_chain(self.everyone@.take(i + 1), new_chain@) == before.push(peer));
                    assert forall|k: int| 0 <= k < before.len() + 1 implies is_signed(
                        #[trigger] ctx.outbox@[out0.len() + k],
                        self.id,
                        before.push(peer)[k],
                        ctx.now,
                        v,
                        new_chain@,
                    ) by {
                        if k < before.len() {
                            assert(ctx.outbox@[out0.len() + k] == o[out0.len() + k]);
                        }
                    }
                    assert(ctx.outbox@.take(out0.len() as int) =~= o.take(out0.len() as int));
                } else {
                    if peer == self.id {
                        assert(new_chain@[new_chain@.len() - 1] == peer);
                    }
                    assert(outside_chain(self.everyone@.take(i + 1), new_chain@) == before);
                }
                i = i + 1;
            }
            assert(self.everyone@.take(i as int) =~= self.everyone@);
        }
        if !self.is_commander {
            let n = self.seen.len();
            if n == 1 {
                proof { lemma_singleton_is(self.seen@, v); }
                self.decision = Some(v);
            } else if n >= 2 {
                self.decision = Some(false);
            } else {
                assert(self.seen@.contains(v));
                assert(self.seen@.remove(v).len() + 1 == self.seen@.len());
            }
        }
    }
}

/// A one-element set containing `v` is `{v}`.
proof fn lemma_singleton_is(s: Set<bool>, v: bool)
    requires
        s.finite(),
        s.len() == 1,
        s.contains(v),
    ensures
        s == set![v],
{
    let r = s.remove(v);
    assert(r.len() == 0);
    assert(r =~= Set::<bool>::empty()) by {
        r.lemma_len0_is_empty();
    }
    assert(s =~= set![v]) by {
        assert forall|x: bool| s.contains(x) implies x == v by {
            if x != v {
                assert(r.contains(x));
            }
        }
    }
}

/// Drops every relayed message (any signed value with a chain of two or
/// more signers); the commander's own messages arrive one tick later.
pub struct DropAllForwards;

impl Adversary<Msg> for DropAllForwards {
    open spec fn admits(&self, now: Time) -> bool {
        now < Time::MAX
    }

    /// A forwarded message (a chain of two or more signers) is lost;
    /// the commander's own sends arrive one tick later.
    open spec fn outcome(&self, env: Envelope<Msg>, now: Time, post: Self, out: Seq<(Time, Envelope<Msg>)>) -> bool {
        match env.msg {
            Msg::Signed { chain, .. } => if chain@.len() >= 2 {
                out.len() == 0
            } else {
                out == seq![((now + 1) as Time, env)]
            },
        }
    }

    fn intercept(&mut self, env: Envelope<Msg>, now: Time, rng: &mut SimRng) -> (r: Vec<(Time, Envelope<Msg>)>)
        ensures
            *final(rng) == *old(rng),
    {
        let Msg::Signed { ref chain, .. } = env.msg;
        if chain.len() >= 2 {
            return Vec::new();
        }
        let mut r = Vec::new();
        r.push((now + 1, env));
        r
    }
}

} // verus!
