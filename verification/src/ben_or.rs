//! Ben-Or's randomized binary consensus (crash faults). Each round,
//! processes exchange preferences (phase 1), report a value seen from a
//! strict majority (phase 2), then decide a value reported more than
//! `f` times, adopt a reported value, or flip a coin.

use vstd::prelude::*;
use crate::collections::RoundLog;
use crate::net::{sends_to_all, Envelope, NodeId, StepCtx};

verus! {

/// Wire message.
#[derive(Clone, Copy, Debug)]
pub enum Msg {
    /// Phase-1 preference in round `r`.
    Phase1 {
        /// Round.
        r: u32,
        /// Preference.
        v: bool,
    },
    /// Phase-2 report in round `r`: `Some(v)` if a phase-1 majority for
    /// `v` was seen.
    Phase2 {
        /// Round.
        r: u32,
        /// Reported value.
        v: Option<bool>,
    },
}

/// Ben-Or process state.
pub struct BenOrNode {
    /// This process's identity.
    pub id: NodeId,
    /// All processes.
    pub everyone: Vec<NodeId>,
    /// Number of processes.
    pub n: usize,
    /// Crash bound.
    pub f: usize,
    /// Current round.
    pub round: u32,
    /// Current preference.
    pub preference: bool,
    /// Decision.
    pub decision: Option<bool>,
    /// Phase-1 values received, per round.
    pub phase1_received: RoundLog<bool>,
    /// Phase-2 reports received, per round.
    pub phase2_received: RoundLog<Option<bool>>,
    /// Whether phase 1 of the current round has been sent.
    pub sent_phase1: bool,
    /// Whether phase 2 of the current round has been sent.
    pub sent_phase2: bool,
}

/// How many of `s` are `b`.
pub open spec fn count_bool(s: Seq<bool>, b: bool) -> nat {
    s.filter(|x: bool| x == b).len()
}

/// How many of `s` are `Some(b)`.
pub open spec fn count_some(s: Seq<Option<bool>>, b: bool) -> nat {
    s.filter(|x: Option<bool>| x == Some(b)).len()
}

/// The phase-2 report for phase-1 `votes` among `n` processes: the value
/// held by a strict majority, if any.
pub open spec fn majority_report(votes: Seq<bool>, n: int) -> Option<bool> {
    if count_bool(votes, true) > n / 2 {
        Some(true)
    } else if count_bool(votes, false) > n / 2 {
        Some(false)
    } else {
        None
    }
}

pub(crate) proof fn lemma_count_bool_push(s: Seq<bool>, x: bool, b: bool)
    ensures
        count_bool(s.push(x), b) == count_bool(s, b) + if x == b { 1nat } else { 0nat },
{
    reveal(Seq::filter);
    assert(s.push(x).drop_last() =~= s);
}

pub(crate) proof fn lemma_count_some_push(s: Seq<Option<bool>>, x: Option<bool>, b: bool)
    ensures
        count_some(s.push(x), b) == count_some(s, b) + if x == Some(b) { 1nat } else { 0nat },
{
    reveal(Seq::filter);
    assert(s.push(x).drop_last() =~= s);
}

/// How many of `v` are `b`.
pub(crate) fn count_bools(v: &Vec<bool>, b: bool) -> (r: usize)
    ensures
        r == count_bool(v@, b),
        r <= v@.len(),
{
    let mut c: usize = 0;
    let mut i: usize = 0;
    while i < v.len()
        invariant
            i <= v@.len(),
            c == count_bool(v@.take(i as int), b),
            c <= i,
        decreases v@.len() - i,
    {
        proof {
            assert(v@.take(i + 1) =~= v@.take(i as int).push(v@[i as int]));
            lemma_count_bool_push(v@.take(i as int), v@[i as int], b);
        }
        if v[i] == b {
            c = c + 1;
        }
        i = i + 1;
    }
    assert(v@.take(i as int) =~= v@);
    c
}

/// How many of `v` are `Some(b)`.
pub(crate) fn count_somes(v: &Vec<Option<bool>>, b: bool) -> (r: usize)
    ensures
        r == count_some(v@, b),
        r <= v@.len(),
{
    let mut c: usize = 0;
    let mut i: usize = 0;
    while i < v.len()
        invariant
            i <= v@.len(),
            c == count_some(v@.take(i as int), b),
            c <= i,
        decreases v@.len() - i,
    {
        proof {
            assert(v@.take(i + 1) =~= v@.take(i as int).push(v@[i as int]));
            lemma_count_some_push(v@.take(i as int), v@[i as int], b);
        }
        if v[i] == Some(b) {
            c = c + 1;
        }
        i = i + 1;
    }
    assert(v@.take(i as int) =~= v@);
    c
}

impl BenOrNode {
    /// Build a Ben-Or process in round 1 preferring `input`.
    pub fn new(id: NodeId, everyone: Vec<NodeId>, n: usize, f: usize, input: bool) -> (s: Self)
        ensures
            s.id == id,
            s.everyone@ == everyone@,
            s.n == n,
            s.f == f,
            s.round == 1,
            s.preference == input,
            s.decision is None,
            forall|r: u32| #[trigger] s.phase1_received.values(r) == Seq::<bool>::empty(),
            forall|r: u32| #[trigger] s.phase2_received.values(r) == Seq::<Option<bool>>::empty(),
            !s.sent_phase1,
            !s.sent_phase2,
    {
        BenOrNode {
            id,
            everyone,
            n,
            f,
            round: 1,
            preference: input,
            decision: None,
            phase1_received: RoundLog::new(),
            phase2_received: RoundLog::new(),
            sent_phase1: false,
            sent_phase2: false,
        }
    }

    /// Send this round's phase-1 preference to everyone, once.
    fn try_phase1(&mut self, ctx: &mut StepCtx<Msg>)
        ensures
            final(ctx).now == old(ctx).now,
            final(ctx).timers@ == old(ctx).timers@,
            final(ctx).rng == old(ctx).rng,
            if !old(self).sent_phase1 {
                &&& *final(self) == (BenOrNode { sent_phase1: true, ..*old(self) })
                &&& final(ctx).outbox@ == old(ctx).outbox@ + sends_to_all(
                    old(self).id,
                    old(self).everyone@,
                    old(ctx).now,
                    Msg::Phase1 { r: old(self).round, v: old(self).preference },
                )
            } else {
                &&& *final(self) == *old(self)
                &&& final(ctx).outbox@ == old(ctx).outbox@
            },
    {
        if !self.sent_phase1 {
            self.sent_phase1 = true;
            ctx.broadcast(self.id, &self.everyone, Msg::Phase1 { r: self.round, v: self.preference });
        }
    }

    /// First tick: send the round-1 preference.
    pub fn on_tick(&mut self, ctx: &mut StepCtx<Msg>)
        ensures
            final(ctx).now == old(ctx).now,
            final(ctx).timers@ == old(ctx).timers@,
            final(ctx).rng == old(ctx).rng,
            if !old(self).sent_phase1 {
                &&& *final(self) == (BenOrNode { sent_phase1: true, ..*old(self) })
                &&& final(ctx).outbox@ == old(ctx).outbox@ + sends_to_all(
                    old(self).id,
                    old(self).everyone@,
                    old(ctx).now,
                    Msg::Phase1 { r: old(self).round, v: old(self).preference },
                )
            } else {
                &&& *final(self) == *old(self)
                &&& final(ctx).outbox@ == old(ctx).outbox@
            },
    {
        self.try_phase1(ctx);
    }
}

/// The state after a round's phase-2 reports `votes` are in, with
/// `coin` the bit drawn when no report carries a value: decide a value
/// reported more than `f` times, else adopt a reported value, else the
/// coin; then move to the next round with nothing sent.
pub open spec fn ben_or_advance(s: BenOrNode, votes: Seq<Option<bool>>, coin: bool) -> BenOrNode {
    let ct = count_some(votes, true);
    let cf = count_some(votes, false);
    BenOrNode {
        decision: if ct > s.f { Some(true) } else if cf > s.f { Some(false) } else { s.decision },
        preference: if ct > s.f || cf > s.f {
            s.preference
        } else if ct >= 1 {
            true
        } else if cf >= 1 {
            false
        } else {
            coin
        },
        round: (s.round + 1) as u32,
        sent_phase1: false,
        sent_phase2: false,
        ..s
    }
}

/// Some report carries `b` exactly when the count of `b` reports is
/// positive.
pub(crate) proof fn lemma_count_some_positive(s: Seq<Option<bool>>, b: bool)
    ensures
        count_some(s, b) >= 1 <==> exists|k: int| 0 <= k < s.len() && s[k] == Some(b),
{
    let p = |x: Option<bool>| x == Some(b);
    s.filter_lemma(p);
    if exists|k: int| 0 <= k < s.len() && s[k] == Some(b) {
        let k = choose|k: int| 0 <= k < s.len() && s[k] == Some(b);
        assert(p(s[k]));
        assert(s.filter(p).contains(s[k]));
    }
    if !exists|k: int| 0 <= k < s.len() && s[k] == Some(b) {
        assert forall|k: int| 0 <= k < s.len() implies !p(s[k]) by {}
        s.lemma_all_neg_filter_empty(p);
    }
}

/// When every report carries `b`, all of them count.
pub(crate) proof fn lemma_count_some_all(s: Seq<Option<bool>>, b: bool)
    requires
        forall|k: int| 0 <= k < s.len() ==> s[k] == Some(b),
    ensures
        count_some(s, b) == s.len(),
    decreases s.len(),
{
    if s.len() > 0 {
        let t = s.drop_last();
        assert(t.push(s.last()) =~= s);
        lemma_count_some_all(t, b);
        t.lemma_filter_len_push(|x: Option<bool>| x == Some(b), s.last());
    } else {
        assert(s.filter(|x: Option<bool>| x == Some(b)) =~= s);
    }
}

/// Validity of a Ben-Or round: when the phase-2 reports carry a value `v`
/// and never the other value, the process either decides `v` or keeps
/// its decision and moves on preferring `v`, whatever the coin says.
pub proof fn lemma_ben_or_single_report(s: BenOrNode, votes: Seq<Option<bool>>, coin: bool, v: bool)
    requires
        exists|k: int| 0 <= k < votes.len() && votes[k] == Some(v),
        forall|k: int| 0 <= k < votes.len() ==> votes[k] != Some(!v),
    ensures
        ben_or_advance(s, votes, coin).decision == Some(v) || (ben_or_advance(s, votes, coin).decision
            == s.decision && ben_or_advance(s, votes, coin).preference == v),
        ben_or_advance(s, votes, coin).decision == s.decision || ben_or_advance(s, votes, coin).decision
            == Some(v),
{
    lemma_count_some_positive(votes, v);
    lemma_count_some_positive(votes, !v);
}

impl BenOrNode {
    /// Once `n - f` phase-1 values of the current round are in, send the
    /// phase-2 report (once per round).
    fn try_phase2(&mut self, ctx: &mut StepCtx<Msg>)
        requires
            old(self).f <= old(self).n,
        ensures
            final(ctx).now == old(ctx).now,
            final(ctx).timers@ == old(ctx).timers@,
            final(ctx).rng == old(ctx).rng,
            ({
                let votes = old(self).phase1_received.values(old(self).round);
                if votes.len() >= old(self).n - old(self).f && !old(self).sent_phase2 {
                    &&& *final(self) == (BenOrNode { sent_phase2: true, ..*old(self) })
                    &&& final(ctx).outbox@ == old(ctx).outbox@ + sends_to_all(
                        old(self).id,
                        old(self).everyone@,
                        old(ctx).now,
                        Msg::Phase2 { r: old(self).round, v: majority_report(votes, old(self).n as int) },
                    )
                } else {
                    &&& *final(self) == *old(self)
                    &&& final(ctx).outbox@ == old(ctx).outbox@
                }
            }),
    {
        let votes = self.phase1_received.get(self.round);
        if votes.len() < self.n - self.f {
            return;
        }
        if self.sent_phase2 {
            return;
        }
        self.sent_phase2 = true;
        let count_true = count_bools(&votes, true);
        let count_false = count_bools(&votes, false);
        let bias = if count_true > self.n / 2 {
            Some(true)
        } else if count_false > self.n / 2 {
            Some(false)
        } else {
            None
        };
        ctx.broadcast(self.id, &self.everyone, Msg::Phase2 { r: self.round, v: bias });
    }

    /// Once `n - f` phase-2 reports of the current round are in, decide
    /// or update the preference, move to the next round, and (if still
    /// undecided) send its phase-1 preference.
    fn try_decide(&mut self, ctx: &mut StepCtx<Msg>)
        requires
            old(self).f <= old(self).n,
            old(self).phase2_received.values(old(self).round).len() >= old(self).n - old(self).f ==> old(
                self,
            ).round < u32::MAX,
        ensures
            final(ctx).now == old(ctx).now,
            final(ctx).timers@ == old(ctx).timers@,
            ({
                let votes = old(self).phase2_received.values(old(self).round);
                if votes.len() < old(self).n - old(self).f {
                    &&& *final(self) == *old(self)
                    &&& final(ctx).outbox@ == old(ctx).outbox@
                } else {
                    let adv = ben_or_advance(*old(self), votes, final(self).preference);
                    &&& final(self).preference == adv.preference
                    &&& *final(self) == (BenOrNode { sent_phase1: adv.decision is None, ..adv })
                    &&& final(ctx).outbox@ == if adv.decision is None {
                        old(ctx).outbox@ + sends_to_all(
                            old(self).id,
                            old(self).everyone@,
                            old(ctx).now,
                            Msg::Phase1 { r: adv.round, v: adv.preference },
                        )
                    } else {
                        old(ctx).outbox@
                    }
                }
            }),
    {
        let votes = self.phase2_received.get(self.round);
        if votes.len() < self.n - self.f {
            return;
        }
        let count_true = count_somes(&votes, true);
        let count_false = count_somes(&votes, false);
        if count_true > self.f {
            self.decision = Some(true);
        } else if count_false > self.f {
            self.decision = Some(false);
        } else if count_true >= 1 {
            self.preference = true;
        } else if count_false >= 1 {
            self.preference = false;
        } else {
            self.preference = ctx.rng.coin();
        }
        self.round = self.round + 1;
        self.sent_phase1 = false;
        self.sent_phase2 = false;
        if self.decision.is_none() {
            self.try_phase1(ctx);
        }
    }

    /// Handle one delivered message: record it for its round and, if it
    /// belongs to the current round, try the next step (phase 2 for a
    /// phase-1 value, the decision for a phase-2 report).
    pub fn on_receive(&mut self, env: Envelope<Msg>, ctx: &mut StepCtx<Msg>)
        requires
            match env.msg {
                Msg::Phase1 { r, .. } => r == old(self).round ==> old(self).f <= old(self).n,
                Msg::Phase2 { r, .. } => r == old(self).round ==> {
                    &&& old(self).f <= old(self).n
                    &&& old(self).phase2_received.values(r).len() + 1 >= old(self).n - old(self).f ==> old(
                        self,
                    ).round < u32::MAX
                },
            },
        ensures
            final(ctx).now == old(ctx).now,
            final(ctx).timers@ == old(ctx).timers@,
            env.msg is Phase1 ==> final(ctx).rng == old(ctx).rng,
            match env.msg {
                Msg::Phase1 { r, v } => {
                    let rec = BenOrNode { phase1_received: final(self).phase1_received, ..*old(self) };
                    let votes = rec.phase1_received.values(rec.round);
                    &&& final(self).phase1_received.values(r) == old(self).phase1_received.values(r).push(v)
                    &&& forall|q: u32| q != r ==> #[trigger] final(self).phase1_received.values(q) == old(self).phase1_received.values(q)
                    &&& if r == old(self).round && votes.len() >= old(self).n - old(self).f && !old(self).sent_phase2 {
                        &&& *final(self) == (BenOrNode { sent_phase2: true, ..rec })
                        &&& final(ctx).outbox@ == old(ctx).outbox@ + sends_to_all(
                            old(self).id,
                            old(self).everyone@,
                            old(ctx).now,
                            Msg::Phase2 { r, v: majority_report(votes, old(self).n as int) },
                        )
                    } else {
                        &&& *final(self) == rec
                        &&& final(ctx).outbox@ == old(ctx).outbox@
                    }
                },
                Msg::Phase2 { r, v } => {
                    let rec = BenOrNode { phase2_received: final(self).phase2_received, ..*old(self) };
                    let votes = rec.phase2_received.values(rec.round);
                    &&& final(self).phase2_received.values(r) == old(self).phase2_received.values(r).push(v)
                    &&& forall|q: u32| q != r ==> #[trigger] final(self).phase2_received.values(q) == old(self).phase2_received.values(q)
                    &&& if r == old(self).round && votes.len() >= old(self).n - old(self).f {
                        let adv = ben_or_advance(rec, votes, final(self).preference);
                        &&& final(self).preference == adv.preference
                        &&& *final(self) == (BenOrNode { sent_phase1: adv.decision is None, ..adv })
                        &&& final(ctx).outbox@ == if adv.decision is None {
                            old(ctx).outbox@ + sends_to_all(
                                old(self).id,
                                old(self).everyone@,
                                old(ctx).now,
                                Msg::Phase1 { r: adv.round, v: adv.preference },
                            )
                        } else {
                            old(ctx).outbox@
                        }
                    } else {
                        &&& *final(self) == rec
                        &&& final(ctx).outbox@ == old(ctx).outbox@
                    }
                },
            },
    {
        match env.msg {
            Msg::Phase1 { r, v } => {
                self.phase1_received.push(r, v);
                if r == self.round {
                    self.try_phase2(ctx);
                }
            },
            Msg::Phase2 { r, v } => {
                self.phase2_received.push(r, v);
                if r == self.round {
                    self.try_decide(ctx);
                }
            },
        }
    }
}

} // verus!
