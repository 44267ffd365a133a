//! A Rabin-style binary agreement with a common coin: processes
//! exchange proposals, echo a value proposed by more than two thirds,
//! and decide a value echoed by more than two thirds; otherwise they
//! adopt an unopposed echoed value or the round's common coin.

use vstd::prelude::*;
use crate::ben_or::{count_bool, count_bools, count_some, count_somes, lemma_count_some_positive};
use crate::collections::RoundLog;
use crate::net::{sends_to_all, Envelope, NodeId, StepCtx};

verus! {

/// Wire message.
#[derive(Clone, Copy, Debug)]
pub enum Msg {
    /// Phase-1 proposal.
    Propose {
        /// Round.
        r: u32,
        /// Preference.
        v: bool,
    },
    /// Phase-2 echo.
    Echo {
        /// Round.
        r: u32,
        /// Echoed value (none = abstain).
        v: Option<bool>,
    },
}

/// Rabin-style process; `F` is the common-coin oracle, giving each
/// round's coin bit.
pub struct RabinNode<F> {
    /// This process's identity.
    pub id: NodeId,
    /// All processes.
    pub everyone: Vec<NodeId>,
    /// Number of processes.
    pub n: usize,
    /// Byzantine bound.
    pub f: usize,
    /// Current round.
    pub round: u32,
    /// Current preference.
    pub preference: bool,
    /// Decision.
    pub decision: Option<bool>,
    /// The common-coin oracle.
    pub coin: F,
    /// Proposals received per round.
    pub proposes: RoundLog<bool>,
    /// Echoes received per round.
    pub echoes: RoundLog<Option<bool>>,
    /// Last round whose proposal was sent.
    pub sent_propose: u32,
    /// Last round whose echo was sent.
    pub sent_echo: u32,
}

/// The echo for `votes` among `n`: a value proposed by more than two
/// thirds, if any.
pub open spec fn supermajority_report(votes: Seq<bool>, n: int) -> Option<bool> {
    if count_bool(votes, true) > 2 * n / 3 {
        Some(true)
    } else if count_bool(votes, false) > 2 * n / 3 {
        Some(false)
    } else {
        None
    }
}

/// One echo step: with `n - f` proposals of the current round and no
/// echo sent for it yet, the supermajority report is echoed to everyone.
pub open spec fn echo_step<F>(pre: RabinNode<F>, post: RabinNode<F>, out0: Seq<Envelope<Msg>>, out1: Seq<Envelope<Msg>>, now: u64) -> bool {
    let votes = pre.proposes.values(pre.round);
    if votes.len() >= pre.n - pre.f && pre.sent_echo < pre.round {
        &&& post == (RabinNode { sent_echo: pre.round, ..pre })
        &&& out1 == out0 + sends_to_all(pre.id, pre.everyone@, now, Msg::Echo { r: pre.round, v: supermajority_report(votes, pre.n as int) })
    } else {
        &&& post == pre
        &&& out1 == out0
    }
}

/// One decision step: with `n - f` echoes of the current round, decide
/// a value echoed by more than two thirds; otherwise adopt a value
/// echoed without opposition, or else the coin for the round (a value
/// the oracle can return), move to the next round and propose.
pub open spec fn decide_step<F: Fn(u32) -> bool>(pre: RabinNode<F>, post: RabinNode<F>, out0: Seq<Envelope<Msg>>, out1: Seq<Envelope<Msg>>, now: u64) -> bool {
    let votes = pre.echoes.values(pre.round);
    let ct = count_some(votes, true);
    let cf = count_some(votes, false);
    let third = 2 * pre.n / 3;
    if votes.len() < pre.n - pre.f {
        &&& post == pre
        &&& out1 == out0
    } else if ct > third {
        &&& post == (RabinNode { decision: Some(true), ..pre })
        &&& out1 == out0
    } else if cf > third {
        &&& post == (RabinNode { decision: Some(false), ..pre })
        &&& out1 == out0
    } else {
        let next = (pre.round + 1) as u32;
        &&& (ct >= 1 && cf == 0) ==> post.preference
        &&& (cf >= 1 && ct == 0) ==> !post.preference
        &&& !(ct >= 1 && cf == 0) && !(cf >= 1 && ct == 0) ==> call_ensures(pre.coin, (pre.round,), post.preference)
        &&& post == (RabinNode {
            preference: post.preference,
            round: next,
            sent_propose: if pre.sent_propose < next { next } else { pre.sent_propose },
            ..pre
        })
        &&& out1 == if pre.sent_propose < next {
            out0 + sends_to_all(pre.id, pre.everyone@, now, Msg::Propose { r: next, v: post.preference })
        } else {
            out0
        }
    }
}

/// Validity of a Rabin round: when the `n - f` echoes of the current
/// round carry a value `v` and never the other value, the process either
/// decides `v` or keeps its decision and moves on preferring `v`,
/// whatever the coin says.
pub proof fn lemma_rabin_single_echo<F: Fn(u32) -> bool>(
    pre: RabinNode<F>,
    post: RabinNode<F>,
    out0: Seq<Envelope<Msg>>,
    out1: Seq<Envelope<Msg>>,
    now: u64,
    v: bool,
)
    requires
        decide_step(pre, post, out0, out1, now),
        pre.echoes.values(pre.round).len() >= pre.n - pre.f,
        exists|k: int| 0 <= k < pre.echoes.values(pre.round).len() && pre.echoes.values(pre.round)[k] == Some(v),
        forall|k: int| 0 <= k < pre.echoes.values(pre.round).len() ==> pre.echoes.values(pre.round)[k] != Some(!v),
    ensures
        post.decision == Some(v) || (post.decision == pre.decision && post.preference == v),
        post.decision == pre.decision || post.decision == Some(v),
{
    let votes = pre.echoes.values(pre.round);
    lemma_count_some_positive(votes, v);
    lemma_count_some_positive(votes, !v);
}

impl<F: Fn(u32) -> bool> RabinNode<F> {
    /// The coin can be flipped for every round.
    pub open spec fn coin_total(&self) -> bool {
        forall|r: u32| call_requires(self.coin, (r,))
    }

    /// Build a process in round 1 preferring `input`.
    pub fn new(id: NodeId, everyone: Vec<NodeId>, n: usize, f: usize, input: bool, coin: F) -> (s: Self)
        ensures
            s.id == id,
            s.everyone@ == everyone@,
            s.n == n,
            s.f == f,
            s.round == 1,
            s.preference == input,
            s.decision is None,
            s.coin == coin,
            forall|r: u32| #[trigger] s.proposes.values(r) == Seq::<bool>::empty(),
            forall|r: u32| #[trigger] s.echoes.values(r) == Seq::<Option<bool>>::empty(),
            s.sent_propose == 0,
            s.sent_echo == 0,
    {
        RabinNode {
            id,
            everyone,
            n,
            f,
            round: 1,
            preference: input,
            decision: None,
            coin,
            proposes: RoundLog::new(),
            echoes: RoundLog::new(),
            sent_propose: 0,
            sent_echo: 0,
        }
    }

    /// Send this round's proposal to everyone, once per round.
    fn maybe_propose(&mut self, ctx: &mut StepCtx<Msg>)
        ensures
            final(ctx).now == old(ctx).now,
            final(ctx).timers@ == old(ctx).timers@,
            final(ctx).rng == old(ctx).rng,
            if old(self).sent_propose < old(self).round {
                &&& *final(self) == (RabinNode { sent_propose: old(self).round, ..*old(self) })
                &&& final(ctx).outbox@ == old(ctx).outbox@ + sends_to_all(
                    old(self).id,
                    old(self).everyone@,
                    old(ctx).now,
                    Msg::Propose { r: old(self).round, v: old(self).preference },
                )
            } else {
                &&& *final(self) == *old(self)
                &&& final(ctx).outbox@ == old(ctx).outbox@
            },
    {
        if self.sent_propose < self.round {
            self.sent_propose = self.round;
            ctx.broadcast(self.id, &self.everyone, Msg::Propose { r: self.round, v: self.preference });
        }
    }

    /// First tick: send the round-1 proposal.
    pub fn on_tick(&mut self, ctx: &mut StepCtx<Msg>)
        ensures
            final(ctx).now == old(ctx).now,
            final(ctx).timers@ == old(ctx).timers@,
            final(ctx).rng == old(ctx).rng,
            if old(self).sent_propose < old(self).round {
                &&& *final(self) == (RabinNode { sent_propose: old(self).round, ..*old(self) })
                &&& final(ctx).outbox@ == old(ctx).outbox@ + sends_to_all(
                    old(self).id,
                    old(self).everyone@,
                    old(ctx).now,
                    Msg::Propose { r: old(self).round, v: old(self).preference },
                )
            } else {
                &&& *final(self) == *old(self)
                &&& final(ctx).outbox@ == old(ctx).outbox@
            },
    {
        self.maybe_propose(ctx);
    }

    /// Once `n - f` proposals of the current round are in, echo the
    /// supermajority value (once per round).
    fn maybe_echo(&mut self, ctx: &mut StepCtx<Msg>)
        requires
            old(self).f <= old(self).n,
            old(self).proposes.values(old(self).round).len() >= old(self).n - old(self).f && old(
                self,
            ).sent_echo < old(self).round ==> 2 * old(self).n <= usize::MAX,
        ensures
            final(ctx).now == old(ctx).now,
            final(ctx).timers@ == old(ctx).timers@,
            final(ctx).rng == old(ctx).rng,
            echo_step(*old(self), *final(self), old(ctx).outbox@, final(ctx).outbox@, old(ctx).now),
    {
        let votes = self.proposes.get(self.round);
        if votes.len() < self.n - self.f {
            return;
        }
        if self.sent_echo >= self.round {
            return;
        }
        self.sent_echo = self.round;
        let count_true = count_bools(&votes, true);
        let count_false = count_bools(&votes, false);
        let v = if count_true > 2 * self.n / 3 {
            Some(true)
        } else if count_false > 2 * self.n / 3 {
            Some(false)
        } else {
            None
        };
        ctx.broadcast(self.id, &self.everyone, Msg::Echo { r: self.round, v });
    }

    /// Once `n - f` echoes of the current round are in: decide a value
    /// echoed by more than two thirds; otherwise adopt a value echoed
    /// without opposition, or else the round's coin, move to the next
    /// round and propose.
    fn maybe_decide(&mut self, ctx: &mut StepCtx<Msg>)
        requires
            old(self).f <= old(self).n,
            old(self).coin_total(),
            old(self).echoes.values(old(self).round).len() >= old(self).n - old(self).f ==> {
                &&& 2 * old(self).n <= usize::MAX
                &&& old(self).round < u32::MAX
            },
        ensures
            final(ctx).now == old(ctx).now,
            final(ctx).timers@ == old(ctx).timers@,
            final(ctx).rng == old(ctx).rng,
            decide_step(*old(self), *final(self), old(ctx).outbox@, final(ctx).outbox@, old(ctx).now),
    {
        let votes = self.echoes.get(self.round);
        if votes.len() < self.n - self.f {
            return;
        }
        let count_true = count_somes(&votes, true);
        let count_false = count_somes(&votes, false);
        if count_true > 2 * self.n / 3 {
            self.decision = Some(true);
            return;
        }
        if count_false > 2 * self.n / 3 {
            self.decision = Some(false);
            return;
        }
        self.preference = if count_true >= 1 && count_false == 0 {
            true
        } else if count_false >= 1 && count_true == 0 {
            false
        } else {
            (self.coin)(self.round)
        };
        self.round = self.round + 1;
        self.maybe_propose(ctx);
    }
}

impl<F: Fn(u32) -> bool> RabinNode<F> {
    /// Handle one delivered message: record it for its round and, if it
    /// belongs to the current round, take the next step (echo for a
    /// proposal, decision for an echo).
    pub fn on_receive(&mut self, env: Envelope<Msg>, ctx: &mut StepCtx<Msg>)
        requires
            match env.msg {
                Msg::Propose { r, .. } => r == old(self).round ==> {
                    &&& old(self).f <= old(self).n
                    &&& old(self).proposes.values(r).len() + 1 >= old(self).n - old(self).f && old(
                        self,
                    ).sent_echo < old(self).round ==> 2 * old(self).n <= usize::MAX
                },
                Msg::Echo { r, .. } => r == old(self).round ==> {
                    &&& old(self).f <= old(self).n
                    &&& old(self).coin_total()
                    &&& old(self).echoes.values(r).len() + 1 >= old(self).n - old(self).f ==> {
                        &&& 2 * old(self).n <= usize::MAX
                        &&& old(self).round < u32::MAX
                    }
                },
            },
        ensures
            final(ctx).now == old(ctx).now,
            final(ctx).timers@ == old(ctx).timers@,
            final(ctx).rng == old(ctx).rng,
            match env.msg {
                Msg::Propose { r, v } => {
                    let rec = RabinNode { proposes: final(self).proposes, ..*old(self) };
                    &&& rec.proposes.values(r) == old(self).proposes.values(r).push(v)
                    &&& forall|q: u32| q != r ==> #[trigger] rec.proposes.values(q) == old(self).proposes.values(q)
                    &&& if r == old(self).round {
                        echo_step(rec, *final(self), old(ctx).outbox@, final(ctx).outbox@, old(ctx).now)
                    } else {
                        *final(self) == rec && final(ctx).outbox@ == old(ctx).outbox@
                    }
                },
                Msg::Echo { r, v } => {
                    let rec = RabinNode { echoes: final(self).echoes, ..*old(self) };
                    &&& rec.echoes.values(r) == old(self).echoes.values(r).push(v)
                    &&& forall|q: u32| q != r ==> #[trigger] rec.echoes.values(q) == old(self).echoes.values(q)
                    &&& if r == old(self).round {
                        decide_step(rec, *final(self), old(ctx).outbox@, final(ctx).outbox@, old(ctx).now)
                    } else {
                        *final(self) == rec && final(ctx).outbox@ == old(ctx).outbox@
                    }
                },
            },
    {
        match env.msg {
            Msg::Propose { r, v } => {
                self.proposes.push(r, v);
                let ghost rec = *self;
                if r == self.round {
                    self.maybe_echo(ctx);
                }
            },
            Msg::Echo { r, v } => {
                self.echoes.push(r, v);
                let ghost rec = *self;
                if r == self.round {
                    self.maybe_decide(ctx);
                }
            },
        }
    }
}

} // verus!
