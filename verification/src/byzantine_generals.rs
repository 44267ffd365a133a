//! Oral-messages Byzantine generals, OM(1): the commander sends its
//! order to each lieutenant; each lieutenant relays what it heard to the
//! other lieutenants and decides by majority over what it heard
//! directly and what was relayed (ties retreat).

use vstd::prelude::*;
use crate::net::{env_of, sends_to_all, Envelope, NodeId, StepCtx};
use crate::raft::others_of;

verus! {

/// The decision domain.
#[derive(Clone, Copy, Debug, PartialEq, Eq, Structural)]
pub enum Decision {
    /// Attack the city.
    Attack,
    /// Retreat from the city.
    Retreat,
}

/// Wire message.
#[derive(Clone, Copy, Debug)]
pub enum Msg {
    /// Round 0: the commander's order.
    Order {
        /// The order.
        v: Decision,
    },
    /// Round 1: a lieutenant relays the order it received.
    Forward {
        /// The forwarded order.
        v: Decision,
    },
}

/// A general (commander or lieutenant).
pub struct General {
    /// This general's identity.
    pub id: NodeId,
    /// All generals; the first is the commander.
    pub everyone: Vec<NodeId>,
    /// Whether this general is the commander.
    pub is_commander: bool,
    /// The commander's intended order.
    pub commander_intent: Decision,
    /// For a Byzantine commander: an alternative order and the
    /// lieutenants that receive it.
    pub equivocation: Option<(Decision, Vec<NodeId>)>,
    /// What the lieutenant heard directly from the commander.
    pub direct: Option<Decision>,
    /// Orders relayed by other lieutenants.
    pub forwards: Vec<Decision>,
    /// Final decision.
    pub decision: Option<Decision>,
    /// Whether the commander has started.
    pub started: bool,
}

/// The lieutenants: everyone but the commander.
pub open spec fn lieutenants(everyone: Seq<NodeId>) -> Seq<NodeId> {
    everyone.filter(|p: NodeId| p != everyone[0])
}

/// The lieutenants other than `me`.
pub open spec fn other_lieutenants(everyone: Seq<NodeId>, me: NodeId) -> Seq<NodeId> {
    without_two(everyone, everyone[0], me)
}

/// The nodes of `s` other than `a` and `b`, in order.
pub open spec fn without_two(s: Seq<NodeId>, a: NodeId, b: NodeId) -> Seq<NodeId> {
    s.filter(|p: NodeId| p != a && p != b)
}

/// The order a (possibly equivocating) commander sends to `peer`.
pub open spec fn order_for(intent: Decision, equivocation: Option<(Decision, Vec<NodeId>)>, peer: NodeId) -> Decision {
    match equivocation {
        Some((alt, targets)) => if targets@.contains(peer) { alt } else { intent },
        None => intent,
    }
}

/// How many of `votes` are `Attack`.
pub open spec fn attack_count(votes: Seq<Decision>) -> nat {
    votes.filter(|d: Decision| d == Decision::Attack).len()
}

/// Majority over `votes`: attack only when strictly more than half say
/// attack.
pub open spec fn majority(votes: Seq<Decision>) -> Decision {
    if attack_count(votes) * 2 > votes.len() {
        Decision::Attack
    } else {
        Decision::Retreat
    }
}

/// The attack count of a ballot is how often `Attack` occurs in it, and
/// its length is the size of its multiset of orders.
proof fn lemma_attack_count_multiset(s: Seq<Decision>)
    ensures
        attack_count(s) == s.to_multiset().count(Decision::Attack),
        s.len() == s.to_multiset().len(),
        s.len() == s.to_multiset().count(Decision::Attack) + s.to_multiset().count(Decision::Retreat),
    decreases s.len(),
{
    broadcast use vstd::seq_lib::group_seq_properties;
    broadcast use vstd::multiset::group_multiset_axioms;
    if s.len() == 0 {
        assert(s.filter(|d: Decision| d == Decision::Attack) =~= Seq::<Decision>::empty());
        assert(s.to_multiset() =~= vstd::multiset::Multiset::<Decision>::empty());
    } else {
        let t = s.drop_last();
        let e = s.last();
        assert(t.push(e) =~= s);
        lemma_attack_count_multiset(t);
        t.lemma_filter_len_push(|d: Decision| d == Decision::Attack, e);
        t.to_multiset_ensures();
    }
}

/// A lieutenant decides Attack exactly when its ballot (direct order
/// plus relays) holds more Attack orders than Retreat orders: a single
/// Attack among Retreats, or a tie, gives Retreat.
pub proof fn lemma_majority_is_strict(votes: Seq<Decision>)
    ensures
        majority(votes) == Decision::Attack <==> votes.to_multiset().count(Decision::Attack)
            > votes.to_multiset().count(Decision::Retreat),
        majority(votes) == Decision::Retreat <==> votes.to_multiset().count(Decision::Attack)
            <= votes.to_multiset().count(Decision::Retreat),
{
    lemma_attack_count_multiset(votes);
}

/// A lieutenant's decision depends only on which orders it holds, not
/// on the order in which they arrived: ballots with the same orders
/// give the same majority. So lieutenants that hold the same orders
/// (as honest ones do after the relay round under a faulty commander)
/// decide alike.
pub proof fn lemma_majority_ignores_order(s1: Seq<Decision>, s2: Seq<Decision>)
    requires
        s1.to_multiset() == s2.to_multiset(),
    ensures
        majority(s1) == majority(s2),
{
    lemma_attack_count_multiset(s1);
    lemma_attack_count_multiset(s2);
}

/// What a lieutenant votes over: its direct order, then the relays.
pub open spec fn ballot(direct: Option<Decision>, forwards: Seq<Decision>) -> Seq<Decision> {
    match direct {
        Some(v) => seq![v] + forwards,
        None => forwards,
    }
}

/// How many of three orders are `Attack`.
proof fn lemma_attack_count_three(a: Decision, b: Decision, c: Decision)
    ensures
        attack_count(seq![a, b, c]) == (if a == Decision::Attack { 1int } else { 0int }) + (if b
            == Decision::Attack { 1int } else { 0int }) + (if c == Decision::Attack { 1int } else { 0int }),
{
    let p = |d: Decision| d == Decision::Attack;
    let e = Seq::<Decision>::empty();
    assert(e.filter(p) =~= e);
    assert(e.push(a) =~= seq![a]);
    assert(seq![a].push(b) =~= seq![a, b]);
    assert(seq![a, b].push(c) =~= seq![a, b, c]);
    e.lemma_filter_len_push(p, a);
    seq![a].lemma_filter_len_push(p, b);
    seq![a, b].lemma_filter_len_push(p, c);
}

/// OM(1) with one faulty commander and three honest lieutenants: whatever
/// orders `v1`, `v2`, `v3` the commander sends them, every lieutenant's
/// ballot (its own order, then the two relayed orders in either arrival
/// order) has the same majority, so the lieutenants agree.
pub proof fn lemma_om1_agreement(v1: Decision, v2: Decision, v3: Decision)
    ensures
        majority(ballot(Some(v1), seq![v3, v2])) == majority(ballot(Some(v1), seq![v2, v3])),
        majority(ballot(Some(v2), seq![v1, v3])) == majority(ballot(Some(v1), seq![v2, v3])),
        majority(ballot(Some(v2), seq![v3, v1])) == majority(ballot(Some(v1), seq![v2, v3])),
        majority(ballot(Some(v3), seq![v1, v2])) == majority(ballot(Some(v1), seq![v2, v3])),
        majority(ballot(Some(v3), seq![v2, v1])) == majority(ballot(Some(v1), seq![v2, v3])),
{
    assert(seq![v1] + seq![v2, v3] =~= seq![v1, v2, v3]);
    assert(seq![v1] + seq![v3, v2] =~= seq![v1, v3, v2]);
    assert(seq![v2] + seq![v1, v3] =~= seq![v2, v1, v3]);
    assert(seq![v2] + seq![v3, v1] =~= seq![v2, v3, v1]);
    assert(seq![v3] + seq![v1, v2] =~= seq![v3, v1, v2]);
    assert(seq![v3] + seq![v2, v1] =~= seq![v3, v2, v1]);
    lemma_attack_count_three(v1, v2, v3);
    lemma_attack_count_three(v1, v3, v2);
    lemma_attack_count_three(v2, v1, v3);
    lemma_attack_count_three(v2, v3, v1);
    lemma_attack_count_three(v3, v1, v2);
    lemma_attack_count_three(v3, v2, v1);
}

/// Whether `x` occurs in `s`.
fn contains_node(s: &Vec<NodeId>, x: NodeId) -> (r: bool)
    ensures
        r == s@.contains(x),
{
    let mut i: usize = 0;
    while i < s.len()
        invariant
            i <= s@.len(),
            forall|k: int| 0 <= k < i ==> s@[k] != x,
        decreases s@.len() - i,
    {
        if s[i].0 == x.0 {
            assert(s@[i as int] == x);
            return true;
        }
        i = i + 1;
    }
    false
}

impl General {
    /// Build a commander.
    pub fn commander(
        id: NodeId,
        everyone: Vec<NodeId>,
        intent: Decision,
        equivocation: Option<(Decision, Vec<NodeId>)>,
    ) -> (s: Self)
        ensures
            s.id == id,
            s.everyone@ == everyone@,
            s.is_commander,
            s.commander_intent == intent,
            s.equivocation == equivocation,
            s.direct is None,
            s.forwards@.len() == 0,
            s.decision is None,
            !s.started,
    {
        General {
            id,
            everyone,
            is_commander: true,
            commander_intent: intent,
            equivocation,
            direct: None,
            forwards: Vec::new(),
            decision: None,
            started: false,
        }
    }

    /// Build a lieutenant.
    pub fn lieutenant(id: NodeId, everyone: Vec<NodeId>) -> (s: Self)
        ensures
            s.id == id,
            s.everyone@ == everyone@,
            !s.is_commander,
            s.commander_intent == Decision::Retreat,
            s.equivocation is None,
            s.direct is None,
            s.forwards@.len() == 0,
            s.decision is None,
            !s.started,
    {
        General {
            id,
            everyone,
            is_commander: false,
            commander_intent: Decision::Retreat,
            equivocation: None,
            direct: None,
            forwards: Vec::new(),
            decision: None,
            started: false,
        }
    }

    /// Decide by majority over the direct order and the relays.
    fn finalise(&mut self)
        requires
            old(self).forwards@.len() + 1 < usize::MAX,
        ensures
            *final(self) == (General {
                decision: Some(majority(ballot(old(self).direct, old(self).forwards@))),
                ..*old(self)
            }),
    {
        let mut attack: usize = 0;
        let mut total: usize = 0;
        match self.direct {
            Some(v) => {
                total = 1;
                if v == Decision::Attack {
                    attack = 1;
                }
            },
            None => {},
        }
        let ghost pre = match self.direct {
            Some(v) => seq![v],
            None => Seq::<Decision>::empty(),
        };
        let mut i: usize = 0;
        proof {
            reveal(Seq::filter);
            assert(pre + self.forwards@.take(0) =~= pre);
            if pre.len() == 1 {
                assert(pre.drop_last() =~= Seq::<Decision>::empty());
                assert(pre.drop_last().filter(|d: Decision| d == Decision::Attack) =~= Seq::<Decision>::empty());
                assert(pre.last() == pre[0]);
            } else {
                assert(pre =~= Seq::<Decision>::empty());
            }
        }
        while i < self.forwards.len()
            invariant
                i <= self.forwards@.len(),
                self.forwards@.len() + 1 < usize::MAX,
                pre.len() <= 1,
                total == pre.len() + i,
                attack == attack_count(pre + self.forwards@.take(i as int)),
                attack <= total,
                ballot(self.direct, self.forwards@) == pre + self.forwards@,
            decreases self.forwards@.len() - i,
        {
            proof {
                reveal(Seq::filter);
                let t = pre + self.forwards@.take(i + 1);
                assert(t.drop_last() =~= pre + self.forwards@.take(i as int));
                assert(t.last() == self.forwards@[i as int]);
            }
            if self.forwards[i] == Decision::Attack {
                attack = attack + 1;
            }
            total = total + 1;
            i = i + 1;
        }
        assert(pre + self.forwards@.take(i as int) =~= ballot(self.direct, self.forwards@));
        let retreat = total - attack;
        self.decision = Some(if attack > retreat { Decision::Attack } else { Decision::Retreat });
    }
}

/// The commander's round-0 orders, one per lieutenant in order.
pub open spec fn orders(
    from: NodeId,
    lieuts: Seq<NodeId>,
    now: u64,
    intent: Decision,
    equivocation: Option<(Decision, Vec<NodeId>)>,
) -> Seq<Envelope<Msg>> {
    Seq::new(lieuts.len(), |k: int| env_of(from, lieuts[k], now, Msg::Order { v: order_for(intent, equivocation, lieuts[k]) }))
}

/// The nodes of `everyone` other than `a` and `b`, in order.
fn all_but(everyone: &Vec<NodeId>, a: NodeId, b: NodeId) -> (r: Vec<NodeId>)
    ensures
        r@ == without_two(everyone@, a, b),
{
    let mut r: Vec<NodeId> = Vec::new();
    let mut i: usize = 0;
    while i < everyone.len()
        invariant
            i <= everyone@.len(),
            r@ == without_two(everyone@.take(i as int), a, b),
        decreases everyone@.len() - i,
    {
        proof {
            reveal(Seq::filter);
            assert(everyone@.take(i + 1).drop_last() =~= everyone@.take(i as int));
        }
        if everyone[i].0 != a.0 && everyone[i].0 != b.0 {
            r.push(everyone[i]);
        }
        i = i + 1;
    }
    assert(everyone@.take(i as int) =~= everyone@);
    r
}

impl General {
    /// First tick: the commander sends each lieutenant its order (the
    /// alternative one to the equivocation targets).
    pub fn on_tick(&mut self, ctx: &mut StepCtx<Msg>)
        requires
            old(self).everyone@.len() >= 1,
        ensures
            final(ctx).now == old(ctx).now,
            final(ctx).timers@ == old(ctx).timers@,
            final(ctx).rng == old(ctx).rng,
            if old(self).is_commander && !old(self).started {
                &&& *final(self) == (General { started: true, ..*old(self) })
                &&& final(ctx).outbox@ == old(ctx).outbox@ + orders(
                    old(self).id,
                    lieutenants(old(self).everyone@),
                    old(ctx).now,
                    old(self).commander_intent,
                    old(self).equivocation,
                )
            } else {
                &&& *final(self) == *old(self)
                &&& final(ctx).outbox@ == old(ctx).outbox@
            },
    {
        if !self.is_commander || self.started {
            return;
        }
        self.started = true;
        let commander = self.everyone[0];
        let lieuts = others_of(&self.everyone, commander);
        let ghost out0 = ctx.outbox@;
        assert(lieuts@ == lieutenants(self.everyone@));
        let mut i: usize = 0;
        while i < lieuts.len()
            invariant
                i <= lieuts@.len(),
                *self == (General { started: true, ..*old(self) }),
                lieuts@ == lieutenants(self.everyone@),
                out0 == old(ctx).outbox@,
                ctx.now == old(ctx).now,
                ctx.timers@ == old(ctx).timers@,
                ctx.rng == old(ctx).rng,
                ctx.outbox@ == out0 + orders(self.id, lieuts@.take(i as int), ctx.now, self.commander_intent, self.equivocation),
            decreases lieuts@.len() - i,
        {
            let lieut = lieuts[i];
            let v = match &self.equivocation {
                Some((alt, targets)) => if contains_node(targets, lieut) { *alt } else { self.commander_intent },
                None => self.commander_intent,
            };
            ctx.send(self.id, lieut, Msg::Order { v });
            assert(orders(self.id, lieuts@.take(i + 1), ctx.now, self.commander_intent, self.equivocation) =~= orders(
                self.id,
                lieuts@.take(i as int),
                ctx.now,
                self.commander_intent,
                self.equivocation,
            ).push(env_of(self.id, lieut, ctx.now, Msg::Order { v })));
            i = i + 1;
        }
        assert(lieuts@.take(i as int) =~= lieuts@);
    }

    /// Handle one delivered message. A lieutenant records the
    /// commander's order and relays it to the other lieutenants; it
    /// records each relay, and once it holds the direct order and
    /// `n - 2` relays it decides by majority.
    pub fn on_receive(&mut self, env: Envelope<Msg>, ctx: &mut StepCtx<Msg>)
        requires
            !old(self).is_commander ==> match env.msg {
                Msg::Order { .. } => old(self).everyone@.len() >= 1,
                Msg::Forward { .. } => old(self).everyone@.len() >= 2 && old(self).forwards@.len() + 2
                    < usize::MAX,
            },
        ensures
            final(ctx).now == old(ctx).now,
            final(ctx).timers@ == old(ctx).timers@,
            final(ctx).rng == old(ctx).rng,
            old(self).is_commander ==> *final(self) == *old(self) && final(ctx).outbox@ == old(ctx).outbox@,
            !old(self).is_commander ==> match env.msg {
                Msg::Order { v } => {
                    &&& *final(self) == (General { direct: Some(v), ..*old(self) })
                    &&& final(ctx).outbox@ == old(ctx).outbox@ + sends_to_all(
                        old(self).id,
                        other_lieutenants(old(self).everyone@, old(self).id),
                        old(ctx).now,
                        Msg::Forward { v },
                    )
                },
                Msg::Forward { v } => {
                    let fw = old(self).forwards@.push(v);
                    &&& final(self).forwards@ == fw
                    &&& final(self).decision == if fw.len() >= old(self).everyone@.len() - 2 && old(self).direct is Some {
                        Some(majority(ballot(old(self).direct, fw)))
                    } else {
                        old(self).decision
                    }
                    &&& *final(self) == (General { forwards: final(self).forwards, decision: final(self).decision, ..*old(self) })
                    &&& final(ctx).outbox@ == old(ctx).outbox@
                },
            },
    {
        match env.msg {
            Msg::Order { v } => {
                if !self.is_commander {
                    self.direct = Some(v);
                    let me = self.id;
                    let commander = self.everyone[0];
                    let peers = all_but(&self.everyone, commander, me);
                    ctx.broadcast(me, &peers, Msg::Forward { v });
                }
            },
            Msg::Forward { v } => {
                if !self.is_commander {
                    self.forwards.push(v);
                    let expected_forwards = self.everyone.len() - 2;
                    if self.forwards.len() >= expected_forwards && self.direct.is_some() {
                        self.finalise();
                    }
                }
            },
        }
    }
}

} // verus!
