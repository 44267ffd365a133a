//! Paxos Synod (single-decree Paxos): combined proposer-acceptor nodes.
//! A proposer runs phase 1 with a ballot, adopts the value of the
//! highest-ballot acceptance reported by a quorum (or its own), runs
//! phase 2, and decides once a quorum has accepted.

use vstd::prelude::*;
use crate::collections::{KeyMap, KeySet};
use crate::net::{env_of, sends_to_all, Envelope, NodeId, StepCtx};

verus! {

/// Wire message.
#[derive(Clone, Copy, Debug)]
pub enum Msg {
    /// Proposer to acceptors: prepare for ballot `b`.
    Prepare {
        /// Ballot number.
        b: u32,
    },
    /// Acceptor to proposer: promise to ignore lower ballots.
    Promise {
        /// Ballot.
        b: u32,
        /// Last accepted `(ballot, value)`, if any.
        last: Option<(u32, u32)>,
    },
    /// Proposer to acceptors: accept value `v` at ballot `b`.
    Accept {
        /// Ballot.
        b: u32,
        /// Value.
        v: u32,
    },
    /// Acceptor to proposer: accepted at ballot `b`.
    Accepted {
        /// Ballot.
        b: u32,
        /// Value.
        v: u32,
    },
}

/// Synod node combining the proposer and acceptor roles.
pub struct SynodNode {
    /// This node's identity.
    pub id: NodeId,
    /// All nodes, this one included.
    pub everyone: Vec<NodeId>,
    /// This node's preferred value (used if proposer).
    pub preferred: u32,
    /// Whether this node is the initial proposer.
    pub is_proposer: bool,
    /// Initial ballot (proposer only).
    pub initial_ballot: u32,
    /// Acceptor's promised ballot (highest seen).
    pub promised: Option<u32>,
    /// Acceptor's accepted `(ballot, value)`.
    pub accepted: Option<(u32, u32)>,
    /// Proposer's collected promises, by sender.
    pub promises: KeyMap<NodeId, Option<(u32, u32)>>,
    /// Proposer's collected acceptances.
    pub accepteds: KeySet<NodeId>,
    /// Proposer's current ballot.
    pub current_ballot: u32,
    /// Proposer's chosen value (after phase 1).
    pub proposer_value: Option<u32>,
    /// Final decision.
    pub decision: Option<u32>,
    /// Whether the proposer has started.
    pub started: bool,
}

/// Whether `(b1, n1)` is at least `(b2, n2)` in ballot-then-node order.
pub open spec fn ballot_node_ge(b1: u32, n1: NodeId, b2: u32, n2: NodeId) -> bool {
    b1 > b2 || (b1 == b2 && n1.0 >= n2.0)
}

/// Among the promises, the reported acceptance with the highest ballot
/// (ties broken towards the higher node id), with its reporter.
pub open spec fn best_promise(s: Seq<(NodeId, Option<(u32, u32)>)>) -> Option<(NodeId, (u32, u32))>
    decreases s.len(),
{
    if s.len() == 0 {
        None
    } else {
        let rest = best_promise(s.drop_last());
        let (n, last) = s.last();
        match last {
            Some(p) => match rest {
                Some((rn, rp)) => if ballot_node_ge(p.0, n, rp.0, rn) {
                    Some((n, p))
                } else {
                    rest
                },
                None => Some((n, p)),
            },
            None => rest,
        }
    }
}

/// The value a proposer adopts after phase 1: that of the best reported
/// acceptance, or its own preference when none was reported.
pub open spec fn adopted_value(s: Seq<(NodeId, Option<(u32, u32)>)>, preferred: u32) -> u32 {
    match best_promise(s) {
        Some((_, p)) => p.1,
        None => preferred,
    }
}

/// The ballot of a reported acceptance.
pub open spec fn reported_ballot(e: Option<(u32, u32)>) -> u32 {
    match e {
        Some(p) => p.0,
        None => 0,
    }
}

/// The value of a reported acceptance.
pub open spec fn reported_value(e: Option<(u32, u32)>) -> u32 {
    match e {
        Some(p) => p.1,
        None => 0,
    }
}

/// The best reported acceptance is one that a promise reports, and no
/// reported acceptance has a higher ballot; there is none exactly when
/// no promise reports an acceptance.
proof fn lemma_best_promise(s: Seq<(NodeId, Option<(u32, u32)>)>)
    ensures
        best_promise(s) is None <==> forall|k: int| 0 <= k < s.len() ==> (#[trigger] s[k]).1 is None,
        best_promise(s) matches Some((n, p)) ==> {
            &&& exists|k: int| 0 <= k < s.len() && #[trigger] s[k] == (n, Some(p))
            &&& forall|j: int| 0 <= j < s.len() && (#[trigger] s[j]).1 is Some ==> reported_ballot(s[j].1) <= p.0
        },
    decreases s.len(),
{
    if s.len() > 0 {
        let t = s.drop_last();
        lemma_best_promise(t);
        assert forall|k: int| 0 <= k < t.len() implies t[k] == s[k] by {}
        let last = s.last();
        assert(s[s.len() - 1] == last);
        match best_promise(t) {
            Some((rn, rp)) => {
                let k0 = choose|k: int| 0 <= k < t.len() && #[trigger] t[k] == (rn, Some(rp));
                assert(s[k0] == (rn, Some(rp)));
            },
            None => {},
        }
        match best_promise(s) {
            Some((n, p)) => {
                assert forall|j: int| 0 <= j < s.len() && (#[trigger] s[j]).1 is Some implies reported_ballot(s[j].1) <= p.0 by {
                    if j < s.len() - 1 {
                        assert(t[j] == s[j]);
                    }
                }
            },
            None => {
                assert forall|k: int| 0 <= k < s.len() implies (#[trigger] s[k]).1 is None by {
                    if k < s.len() - 1 {
                        assert(t[k] == s[k]);
                    }
                }
            },
        }
    }
}

/// What a proposer adopts after phase 1: when no promise of the quorum
/// reports an acceptance, its own preferred value; otherwise the value of
/// a reported acceptance that no other reported acceptance outranks by
/// ballot. So a value that may have been chosen is never overwritten by
/// the proposer's own.
pub proof fn lemma_adopts_highest_reported(s: Seq<(NodeId, Option<(u32, u32)>)>, preferred: u32)
    ensures
        (forall|k: int| 0 <= k < s.len() ==> (#[trigger] s[k]).1 is None) ==> adopted_value(s, preferred)
            == preferred,
        (exists|k: int| 0 <= k < s.len() && (#[trigger] s[k]).1 is Some) ==> exists|k: int|
            0 <= k < s.len() && (#[trigger] s[k]).1 is Some && reported_value(s[k].1) == adopted_value(s, preferred)
                && forall|j: int| 0 <= j < s.len() && (#[trigger] s[j]).1 is Some ==> reported_ballot(s[j].1) <= reported_ballot(s[k].1),
{
    lemma_best_promise(s);
    match best_promise(s) {
        Some((n, p)) => {
            let k = choose|k: int| 0 <= k < s.len() && #[trigger] s[k] == (n, Some(p));
            assert(s[k].1 == Some(p));
        },
        None => {},
    }
}

/// An acceptor with promise `promised` takes ballot `b` in phase 1.
pub open spec fn prepare_ok(promised: Option<u32>, b: u32) -> bool {
    match promised {
        Some(p) => b > p,
        None => true,
    }
}

/// An acceptor with promise `promised` takes ballot `b` in phase 2.
pub open spec fn accept_ok(promised: Option<u32>, b: u32) -> bool {
    match promised {
        Some(p) => b >= p,
        None => true,
    }
}

impl SynodNode {
    /// A majority of `everyone`.
    pub open spec fn quorum_spec(&self) -> int {
        self.everyone@.len() as int / 2 + 1
    }

    /// Acceptor safety: whatever it accepted is at or below its promise.
    pub open spec fn acceptor_inv(&self) -> bool {
        match self.accepted {
            Some((b, _)) => self.promised is Some && b <= self.promised->0,
            None => true,
        }
    }

    /// Build a Synod node.
    pub fn new(id: NodeId, everyone: Vec<NodeId>, preferred: u32, is_proposer: bool, initial_ballot: u32) -> (s: Self)
        ensures
            s.id == id,
            s.everyone@ == everyone@,
            s.preferred == preferred,
            s.is_proposer == is_proposer,
            s.initial_ballot == initial_ballot,
            s.promised is None,
            s.accepted is None,
            s.promises.entries().len() == 0,
            s.accepteds@ == Set::<NodeId>::empty(),
            s.current_ballot == 0,
            s.proposer_value is None,
            s.decision is None,
            !s.started,
            s.acceptor_inv(),
    {
        let s = SynodNode {
            id,
            everyone,
            preferred,
            is_proposer,
            initial_ballot,
            promised: None,
            accepted: None,
            promises: KeyMap::new(),
            accepteds: KeySet::new(),
            current_ballot: 0,
            proposer_value: None,
            decision: None,
            started: false,
        };
        s
    }

    fn quorum(&self) -> (r: usize)
        ensures
            r == self.quorum_spec(),
    {
        self.everyone.len() / 2 + 1
    }

    /// First tick: the proposer starts phase 1 with its initial ballot,
    /// sending `Prepare` to everyone (itself included).
    pub fn on_tick(&mut self, ctx: &mut StepCtx<Msg>)
        ensures
            final(ctx).now == old(ctx).now,
            final(ctx).timers@ == old(ctx).timers@,
            final(ctx).rng == old(ctx).rng,
            final(self).id == old(self).id,
            final(self).everyone@ == old(self).everyone@,
            if old(self).is_proposer && !old(self).started {
                &&& final(self).started
                &&& final(self).current_ballot == old(self).initial_ballot
                &&& final(ctx).outbox@ == old(ctx).outbox@ + sends_to_all(
                    old(self).id,
                    old(self).everyone@,
                    old(ctx).now,
                    Msg::Prepare { b: old(self).initial_ballot },
                )
                &&& final(self).promised == old(self).promised
                &&& final(self).accepted == old(self).accepted
                &&& final(self).promises.entries() == old(self).promises.entries()
                &&& final(self).accepteds@ == old(self).accepteds@
                &&& final(self).proposer_value == old(self).proposer_value
                &&& final(self).decision == old(self).decision
                &&& final(self).preferred == old(self).preferred
                &&& final(self).is_proposer == old(self).is_proposer
                &&& final(self).initial_ballot == old(self).initial_ballot
            } else {
                &&& *final(self) == *old(self)
                &&& final(ctx).outbox@ == old(ctx).outbox@
            },
    {
        if !self.is_proposer || self.started {
            return;
        }
        self.started = true;
        self.current_ballot = self.initial_ballot;
        ctx.broadcast(self.id, &self.everyone, Msg::Prepare { b: self.current_ballot });
    }
}

impl SynodNode {
    /// Handle one delivered message (`Prepare`/`Accept` as an acceptor,
    /// `Promise`/`Accepted` as the proposer of the current ballot).
    pub fn on_receive(&mut self, env: Envelope<Msg>, ctx: &mut StepCtx<Msg>)
        ensures
            old(self).promised matches Some(p) ==> (final(self).promised matches Some(q) && p <= q),
            final(ctx).now == old(ctx).now,
            final(ctx).timers@ == old(ctx).timers@,
            final(ctx).rng == old(ctx).rng,
            old(self).acceptor_inv() ==> final(self).acceptor_inv(),
            final(self).id == old(self).id,
            final(self).everyone@ == old(self).everyone@,
            final(self).preferred == old(self).preferred,
            final(self).is_proposer == old(self).is_proposer,
            final(self).initial_ballot == old(self).initial_ballot,
            final(self).current_ballot == old(self).current_ballot,
            final(self).started == old(self).started,
            match env.msg {
                Msg::Prepare { b } => {
                    &&& final(self).promises.entries() == old(self).promises.entries()
                    &&& final(self).accepteds@ == old(self).accepteds@
                    &&& final(self).proposer_value == old(self).proposer_value
                    &&& final(self).decision == old(self).decision
                    &&& final(self).accepted == old(self).accepted
                    &&& if prepare_ok(old(self).promised, b) {
                        &&& final(self).promised == Some(b)
                        &&& final(ctx).outbox@ == old(ctx).outbox@.push(
                            env_of(
                                old(self).id,
                                env.from,
                                old(ctx).now,
                                Msg::Promise { b, last: old(self).accepted },
                            ),
                        )
                    } else {
                        &&& final(self).promised == old(self).promised
                        &&& final(ctx).outbox@ == old(ctx).outbox@
                    }
                },
                Msg::Promise { b, last } => {
                    &&& final(self).promised == old(self).promised
                    &&& final(self).accepted == old(self).accepted
                    &&& final(self).accepteds@ == old(self).accepteds@
                    &&& final(self).decision == old(self).decision
                    &&& if b != old(self).current_ballot {
                        &&& final(self).promises.entries() == old(self).promises.entries()
                        &&& final(self).proposer_value == old(self).proposer_value
                        &&& final(ctx).outbox@ == old(ctx).outbox@
                    } else {
                        let ps = crate::collections::insert_entry(old(self).promises.entries(), env.from, last);
                        &&& final(self).promises.entries() == ps
                        &&& if ps.len() >= old(self).quorum_spec() && old(self).proposer_value is None {
                            let v = adopted_value(ps, old(self).preferred);
                            &&& final(self).proposer_value == Some(v)
                            &&& final(ctx).outbox@ == old(ctx).outbox@ + sends_to_all(
                                old(self).id,
                                old(self).everyone@,
                                old(ctx).now,
                                Msg::Accept { b, v },
                            )
                        } else {
                            &&& final(self).proposer_value == old(self).proposer_value
                            &&& final(ctx).outbox@ == old(ctx).outbox@
                        }
                    }
                },
                Msg::Accept { b, v } => {
                    &&& final(self).promises.entries() == old(self).promises.entries()
                    &&& final(self).accepteds@ == old(self).accepteds@
                    &&& final(self).proposer_value == old(self).proposer_value
                    &&& final(self).decision == old(self).decision
                    &&& if accept_ok(old(self).promised, b) {
                        &&& final(self).promised == Some(b)
                        &&& final(self).accepted == Some((b, v))
                        &&& final(ctx).outbox@ == old(ctx).outbox@.push(
                            env_of(old(self).id, env.from, old(ctx).now, Msg::Accepted { b, v }),
                        )
                    } else {
                        &&& final(self).promised == old(self).promised
                        &&& final(self).accepted == old(self).accepted
                        &&& final(ctx).outbox@ == old(ctx).outbox@
                    }
                },
                Msg::Accepted { b, v: _ } => {
                    &&& final(self).promised == old(self).promised
                    &&& final(self).accepted == old(self).accepted
                    &&& final(self).promises.entries() == old(self).promises.entries()
                    &&& final(self).proposer_value == old(self).proposer_value
                    &&& final(ctx).outbox@ == old(ctx).outbox@
                    &&& if b != old(self).current_ballot {
                        &&& final(self).accepteds@ == old(self).accepteds@
                        &&& final(self).decision == old(self).decision
                    } else {
                        let acc = old(self).accepteds@.insert(env.from);
                        &&& final(self).accepteds@ == acc
                        &&& final(self).decision == if acc.len() >= old(self).quorum_spec() {
                            old(self).proposer_value
                        } else {
                            old(self).decision
                        }
                    }
                },
            },
    {
        match env.msg {
            Msg::Prepare { b } => {
                let ok = match self.promised {
                    Some(p) => b > p,
                    None => true,
                };
                if ok {
                    self.promised = Some(b);
                    ctx.send(self.id, env.from, Msg::Promise { b, last: self.accepted });
                }
            },
            Msg::Promise { b, last } => {
                if b != self.current_ballot {
                    return;
                }
                self.promises.insert(env.from, last);
                if self.promises.len() >= self.quorum() && self.proposer_value.is_none() {
                    let v = self.adopt();
                    self.proposer_value = Some(v);
                    ctx.broadcast(self.id, &self.everyone, Msg::Accept { b, v });
                }
            },
            Msg::Accept { b, v } => {
                let ok = match self.promised {
                    Some(p) => b >= p,
                    None => true,
                };
                if ok {
                    self.promised = Some(b);
                    self.accepted = Some((b, v));
                    ctx.send(self.id, env.from, Msg::Accepted { b, v });
                }
            },
            Msg::Accepted { b, v: _ } => {
                if b != self.current_ballot {
                    return;
                }
                self.accepteds.insert(env.from);
                if self.accepteds.len() >= self.quorum() {
                    self.decision = self.proposer_value;
                }
            },
        }
    }

    /// The value to propose after phase 1: that of the highest-ballot
    /// acceptance reported in the promises, or the preferred value.
    fn adopt(&self) -> (v: u32)
        ensures
            v == adopted_value(self.promises.entries(), self.preferred),
    {
        let entries = self.promises.entry_list();
        let mut best: Option<(NodeId, (u32, u32))> = None;
        let mut i: usize = 0;
        while i < entries.len()
            invariant
                i <= entries@.len(),
                entries@ == self.promises.entries(),
                best == best_promise(entries@.take(i as int)),
            decreases entries@.len() - i,
        {
            let (n, last) = entries[i];
            assert(entries@.take(i + 1).drop_last() =~= entries@.take(i as int));
            assert(entries@.take(i + 1).last() == entries@[i as int]);
            match last {
                Some(p) => match best {
                    Some((bn, bp)) => {
                        if p.0 > bp.0 || (p.0 == bp.0 && n.0 >= bn.0) {
                            best = Some((n, p));
                        }
                    },
                    None => {
                        best = Some((n, p));
                    },
                },
                None => {},
            }
            i = i + 1;
        }
        assert(entries@.take(i as int) =~= entries@);
        match best {
            Some((_, p)) => p.1,
            None => self.preferred,
        }
    }
}

} // verus!
