//! A Bracha-style binary agreement with a common coin: processes
//! exchange votes, report a value voted by more than two thirds, and,
//! once `n - f` reports are in, take the single reported value (deciding
//! it if it matches the round's coin) or else the coin.

use vstd::prelude::*;
use crate::ben_or::{count_bools, count_some, lemma_count_some_positive};
use crate::rabin::supermajority_report;
use crate::collections::RoundLog;
use crate::net::{sends_to_all, Envelope, NodeId, StepCtx};

verus! {

/// Wire message.
#[derive(Clone, Copy, Debug)]
pub enum Msg {
    /// Vote for round `r`.
    Vote {
        /// Round.
        r: u32,
        /// Preference.
        v: bool,
    },
    /// Auxiliary report for round `r`.
    Aux {
        /// Round.
        r: u32,
        /// Reported supermajority value (none = no supermajority).
        v: Option<bool>,
    },
}

/// Bracha-ABA process; `F` is the common-coin oracle, giving each
/// round's coin bit.
pub struct BrachaAbaNode<F> {
    /// This process's identity.
    pub id: NodeId,
    /// All processes.
    pub everyone: Vec<NodeId>,
    /// Number of processes.
    pub n: usize,
    /// Byzantine bound.
    pub f: usize,
    /// Current round.
    pub round: u32,
    /// Current preference.
    pub preference: bool,
    /// Decision.
    pub decision: Option<bool>,
    /// The common-coin oracle.
    pub coin: F,
    /// Votes received per round.
    pub votes: RoundLog<bool>,
    /// Auxiliary reports received per round.
    pub auxes: RoundLog<Option<bool>>,
    /// Last round whose vote was sent.
    pub sent_vote: u32,
    /// Last round whose report was sent.
    pub sent_aux: u32,
}

/// One report step: with `n - f` votes of the current round and no
/// report sent for it yet, the supermajority value is reported to
/// everyone.
pub open spec fn aux_step<F>(pre: BrachaAbaNode<F>, post: BrachaAbaNode<F>, out0: Seq<Envelope<Msg>>, out1: Seq<Envelope<Msg>>, now: u64) -> bool {
    let votes = pre.votes.values(pre.round);
    if votes.len() >= pre.n - pre.f && pre.sent_aux < pre.round {
        &&& post == (BrachaAbaNode { sent_aux: pre.round, ..pre })
        &&& out1 == out0 + sends_to_all(pre.id, pre.everyone@, now, Msg::Aux { r: pre.round, v: supermajority_report(votes, pre.n as int) })
    } else {
        &&& post == pre
        &&& out1 == out0
    }
}

/// One advance step: with `n - f` reports of the current round in and
/// `coin` the round's coin, a single reported value becomes the
/// preference and is decided if it equals the coin; otherwise the coin
/// becomes the preference. Without a decision the node moves to the next
/// round and votes.
pub open spec fn advance_step<F: Fn(u32) -> bool>(pre: BrachaAbaNode<F>, post: BrachaAbaNode<F>, coin: bool, out0: Seq<Envelope<Msg>>, out1: Seq<Envelope<Msg>>, now: u64) -> bool {
    let reports = pre.auxes.values(pre.round);
    let has_t = count_some(reports, true) >= 1;
    let has_f = count_some(reports, false) >= 1;
    let single = has_t != has_f;
    let v = has_t;
    let next = (pre.round + 1) as u32;
    if reports.len() < pre.n - pre.f {
        &&& post == pre
        &&& out1 == out0
    } else if single && v == coin {
        &&& post == (BrachaAbaNode { preference: v, decision: Some(v), ..pre })
        &&& out1 == out0
    } else {
        let pref = if single { v } else { coin };
        &&& post == (BrachaAbaNode {
            preference: pref,
            round: next,
            sent_vote: if pre.sent_vote < next { next } else { pre.sent_vote },
            ..pre
        })
        &&& out1 == if pre.sent_vote < next {
            out0 + sends_to_all(pre.id, pre.everyone@, now, Msg::Vote { r: next, v: pref })
        } else {
            out0
        }
    }
}

/// An advance step under some coin value the oracle can return.
pub open spec fn advance_by_coin<F: Fn(u32) -> bool>(pre: BrachaAbaNode<F>, post: BrachaAbaNode<F>, out0: Seq<Envelope<Msg>>, out1: Seq<Envelope<Msg>>, now: u64) -> bool {
    exists|c: bool| #[trigger] advance_step(pre, post, c, out0, out1, now)
        && (pre.auxes.values(pre.round).len() < pre.n - pre.f || call_ensures(pre.coin, (pre.round,), c))
}

/// Validity of a round: when the `n - f` reports of the current round
/// carry a value `v` and never the other value, the process moves on with
/// preference `v` whatever the round's coin says, and if it decides, it
/// decides `v`. So when every process starts with `v`, no process ever
/// prefers or decides the other value.
pub proof fn lemma_single_report_kept<F: Fn(u32) -> bool>(
    pre: BrachaAbaNode<F>,
    post: BrachaAbaNode<F>,
    coin: bool,
    out0: Seq<Envelope<Msg>>,
    out1: Seq<Envelope<Msg>>,
    now: u64,
    v: bool,
)
    requires
        advance_step(pre, post, coin, out0, out1, now),
        pre.auxes.values(pre.round).len() >= pre.n - pre.f,
        exists|k: int| 0 <= k < pre.auxes.values(pre.round).len() && pre.auxes.values(pre.round)[k] == Some(v),
        forall|k: int| 0 <= k < pre.auxes.values(pre.round).len() ==> pre.auxes.values(pre.round)[k] != Some(!v),
    ensures
        post.preference == v,
        post.decision == pre.decision || post.decision == Some(v),
{
    let reports = pre.auxes.values(pre.round);
    lemma_count_some_positive(reports, v);
    lemma_count_some_positive(reports, !v);
}

impl<F: Fn(u32) -> bool> BrachaAbaNode<F> {
    /// The coin can be flipped for every round.
    pub open spec fn coin_total(&self) -> bool {
        forall|r: u32| call_requires(self.coin, (r,))
    }

    /// Build a process in round 1 preferring `input`.
    pub fn new(id: NodeId, everyone: Vec<NodeId>, n: usize, f: usize, input: bool, coin: F) -> (s: Self)
        ensures
            s.id == id,
            s.everyone@ == everyone@,
            s.n == n,
            s.f == f,
            s.round == 1,
            s.preference == input,
            s.decision is None,
            s.coin == coin,
            forall|r: u32| #[trigger] s.votes.values(r) == Seq::<bool>::empty(),
            forall|r: u32| #[trigger] s.auxes.values(r) == Seq::<Option<bool>>::empty(),
            s.sent_vote == 0,
            s.sent_aux == 0,
    {
        BrachaAbaNode {
            id,
            everyone,
            n,
            f,
            round: 1,
            preference: input,
            decision: None,
            coin,
            votes: RoundLog::new(),
            auxes: RoundLog::new(),
            sent_vote: 0,
            sent_aux: 0,
        }
    }

    /// Send this round's vote to everyone, once per round.
    fn maybe_vote(&mut self, ctx: &mut StepCtx<Msg>)
        ensures
            final(ctx).now == old(ctx).now,
            final(ctx).timers@ == old(ctx).timers@,
            final(ctx).rng == old(ctx).rng,
            if old(self).sent_vote < old(self).round {
                &&& *final(self) == (BrachaAbaNode { sent_vote: old(self).round, ..*old(self) })
                &&& final(ctx).outbox@ == old(ctx).outbox@ + sends_to_all(
                    old(self).id,
                    old(self).everyone@,
                    old(ctx).now,
                    Msg::Vote { r: old(self).round, v: old(self).preference },
                )
            } else {
                &&& *final(self) == *old(self)
                &&& final(ctx).outbox@ == old(ctx).outbox@
            },
    {
        if self.sent_vote < self.round {
            self.sent_vote = self.round;
            ctx.broadcast(self.id, &self.everyone, Msg::Vote { r: self.round, v: self.preference });
        }
    }

    /// First tick: send the round-1 vote.
    pub fn on_tick(&mut self, ctx: &mut StepCtx<Msg>)
        ensures
            final(ctx).now == old(ctx).now,
            final(ctx).timers@ == old(ctx).timers@,
            final(ctx).rng == old(ctx).rng,
            if old(self).sent_vote < old(self).round {
                &&& *final(self) == (BrachaAbaNode { sent_vote: old(self).round, ..*old(self) })
                &&& final(ctx).outbox@ == old(ctx).outbox@ + sends_to_all(
                    old(self).id,
                    old(self).everyone@,
                    old(ctx).now,
                    Msg::Vote { r: old(self).round, v: old(self).preference },
                )
            } else {
                &&& *final(self) == *old(self)
                &&& final(ctx).outbox@ == old(ctx).outbox@
            },
    {
        self.maybe_vote(ctx);
    }

    /// Once `n - f` votes of the current round are in, report the
    /// supermajority value (once per round).
    fn maybe_aux(&mut self, ctx: &mut StepCtx<Msg>)
        requires
            old(self).f <= old(self).n,
            old(self).votes.values(old(self).round).len() >= old(self).n - old(self).f && old(self).sent_aux
                < old(self).round ==> 2 * old(self).n <= usize::MAX,
        ensures
            final(ctx).now == old(ctx).now,
            final(ctx).timers@ == old(ctx).timers@,
            final(ctx).rng == old(ctx).rng,
            aux_step(*old(self), *final(self), old(ctx).outbox@, final(ctx).outbox@, old(ctx).now),
    {
        let votes = self.votes.get(self.round);
        if votes.len() < self.n - self.f {
            return;
        }
        if self.sent_aux >= self.round {
            return;
        }
        self.sent_aux = self.round;
        let count_true = count_bools(&votes, true);
        let count_false = count_bools(&votes, false);
        let v = if count_true > 2 * self.n / 3 {
            Some(true)
        } else if count_false > 2 * self.n / 3 {
            Some(false)
        } else {
            None
        };
        ctx.broadcast(self.id, &self.everyone, Msg::Aux { r: self.round, v });
    }

    /// Once `n - f` reports of the current round are in, flip the
    /// round's coin and advance (see `advance_step`); returns the coin.
    fn maybe_advance(&mut self, ctx: &mut StepCtx<Msg>) -> (ret: Ghost<bool>)
        requires
            old(self).f <= old(self).n,
            old(self).coin_total(),
            old(self).auxes.values(old(self).round).len() >= old(self).n - old(self).f ==> old(self).round
                < u32::MAX,
        ensures
            final(ctx).now == old(ctx).now,
            final(ctx).timers@ == old(ctx).timers@,
            final(ctx).rng == old(ctx).rng,
            old(self).auxes.values(old(self).round).len() >= old(self).n - old(self).f ==> call_ensures(old(self).coin, (old(self).round,), ret@),
            advance_step(*old(self), *final(self), ret@, old(ctx).outbox@, final(ctx).outbox@, old(ctx).now),
    {
        let auxes = self.auxes.get(self.round);
        if auxes.len() < self.n - self.f {
            return Ghost(false);
        }
        let has_t = crate::ben_or::count_somes(&auxes, true) >= 1;
        let has_f = crate::ben_or::count_somes(&auxes, false) >= 1;
        let coin_bit = (self.coin)(self.round);
        if has_t != has_f {
            let v = has_t;
            self.preference = v;
            if v == coin_bit {
                self.decision = Some(v);
                return Ghost(coin_bit);
            }
        } else {
            self.preference = coin_bit;
        }
        self.round = self.round + 1;
        self.maybe_vote(ctx);
        Ghost(coin_bit)
    }

    /// Handle one delivered message.
    /// - `Vote(r, v)`: record it; for the current round try to report
    ///   (see `aux_step`).
    /// - `Aux(r, v)`: record it; for the current round try to advance
    ///   (see `advance_step`).
    pub fn on_receive(&mut self, env: Envelope<Msg>, ctx: &mut StepCtx<Msg>)
        requires
            match env.msg {
                Msg::Vote { r, .. } => r == old(self).round ==> {
                    &&& old(self).f <= old(self).n
                    &&& old(self).votes.values(r).len() + 1 >= old(self).n - old(self).f && old(self).sent_aux
                        < old(self).round ==> 2 * old(self).n <= usize::MAX
                },
                Msg::Aux { r, .. } => r == old(self).round ==> {
                    &&& old(self).f <= old(self).n
                    &&& old(self).coin_total()
                    &&& old(self).auxes.values(r).len() + 1 >= old(self).n - old(self).f ==> old(self).round
                        < u32::MAX
                },
            },
        ensures
            final(ctx).now == old(ctx).now,
            final(ctx).timers@ == old(ctx).timers@,
            final(ctx).rng == old(ctx).rng,
            match env.msg {
                Msg::Vote { r, v } => {
                    let rec = BrachaAbaNode { votes: final(self).votes, ..*old(self) };
                    &&& rec.votes.values(r) == old(self).votes.values(r).push(v)
                    &&& forall|q: u32| q != r ==> #[trigger] rec.votes.values(q) == old(self).votes.values(q)
                    &&& if r == old(self).round {
                        aux_step(rec, *final(self), old(ctx).outbox@, final(ctx).outbox@, old(ctx).now)
                    } else {
                        *final(self) == rec && final(ctx).outbox@ == old(ctx).outbox@
                    }
                },
                Msg::Aux { r, v } => {
                    let rec = BrachaAbaNode { auxes: final(self).auxes, ..*old(self) };
                    &&& rec.auxes.values(r) == old(self).auxes.values(r).push(v)
                    &&& forall|q: u32| q != r ==> #[trigger] rec.auxes.values(q) == old(self).auxes.values(q)
                    &&& if r == old(self).round {
                        advance_by_coin(rec, *final(self), old(ctx).outbox@, final(ctx).outbox@, old(ctx).now)
                    } else {
                        *final(self) == rec && final(ctx).outbox@ == old(ctx).outbox@
                    }
                },
            },
    {
        match env.msg {
            Msg::Vote { r, v } => {
                self.votes.push(r, v);
                if r == self.round {
                    self.maybe_aux(ctx);
                }
            },
            Msg::Aux { r, v } => {
                self.auxes.push(r, v);
                if r == self.round {
                    let ghost rec = *self;
                    let ghost out0 = ctx.outbox@;
                    let c = self.maybe_advance(ctx);
                    assert(advance_step(rec, *self, c@, out0, ctx.outbox@, ctx.now));
                }
            },
        }
    }
}

} // verus!
