//! MMR's signature-free binary agreement with a common coin. Values are
//! spread by BV-broadcast (relay a value sent by more than `f`, accept
//! it into `bin_values` once sent by more than `2f`); each round a node
//! reports its `bin_values` and, with `n - f` reports, adopts a value
//! reported by more than `2f` (deciding it if it matches the coin) or
//! the coin.

use vstd::prelude::*;
use crate::ben_or::{count_some, count_somes, lemma_count_some_all, lemma_count_some_positive};
use crate::collections::{KeySet, RoundLog, Tally};
use crate::net::{sends_to_all, Envelope, NodeId, StepCtx};

verus! {

/// Wire message.
#[derive(Clone, Copy, Debug)]
pub enum Msg {
    /// BV-broadcast of value `v` in round `r`.
    Bv {
        /// Round.
        r: u32,
        /// Value.
        v: bool,
    },
    /// Aux report of the sender's `bin_values` for round `r`.
    Aux {
        /// Round.
        r: u32,
        /// `Some(v)` if the set is `{v}`, `None` if it holds both.
        v: Option<bool>,
    },
}

/// MMR process; `F` is the common-coin oracle.
pub struct MmrNode<F> {
    /// This process's identity.
    pub id: NodeId,
    /// All processes.
    pub everyone: Vec<NodeId>,
    /// Number of processes.
    pub n: usize,
    /// Byzantine bound.
    pub f: usize,
    /// Current round.
    pub round: u32,
    /// Current preference.
    pub preference: bool,
    /// Decision.
    pub decision: Option<bool>,
    /// The common-coin oracle.
    pub coin: F,
    /// Senders of `Bv(r, v)`, per `(r, v)`.
    pub bv_receivers: Tally<(u32, bool)>,
    /// The `(r, v)` this node has relayed.
    pub bv_echoed: KeySet<(u32, bool)>,
    /// Accepted values: `(r, v)` is present once `v` is in round `r`'s
    /// `bin_values`.
    pub bin_values: KeySet<(u32, bool)>,
    /// Aux reports received per round.
    pub aux_received: RoundLog<Option<bool>>,
    /// Last round whose initial BV was sent.
    pub sent_initial_bv: u32,
    /// Last round whose Aux was sent.
    pub sent_aux: u32,
}

/// The Aux report for a round whose `bin_values` holds `t` (true) and
/// `f` (false): the single value, or none when both are present.
pub open spec fn aux_report(t: bool, f: bool) -> Option<bool> {
    if t && !f {
        Some(true)
    } else if f && !t {
        Some(false)
    } else {
        None
    }
}

/// One Aux step: with a non-empty `bin_values` for the current round and
/// no Aux sent for it yet, report it to everyone.
pub open spec fn aux_step<F>(pre: MmrNode<F>, post: MmrNode<F>, out0: Seq<Envelope<Msg>>, out1: Seq<Envelope<Msg>>, now: u64) -> bool {
    let t = pre.bin_values@.contains((pre.round, true));
    let f = pre.bin_values@.contains((pre.round, false));
    if (t || f) && pre.sent_aux < pre.round {
        &&& post == (MmrNode { sent_aux: pre.round, ..pre })
        &&& out1 == out0 + sends_to_all(pre.id, pre.everyone@, now, Msg::Aux { r: pre.round, v: aux_report(t, f) })
    } else {
        &&& post == pre
        &&& out1 == out0
    }
}

/// One advance step with `coin` the round's coin: with `n - f` reports
/// in, a value reported more than `2f` times becomes the preference and
/// is decided if it equals the coin; otherwise the coin becomes the
/// preference. Without a decision the node moves to the next round and
/// BV-broadcasts its preference.
pub open spec fn advance_step<F>(pre: MmrNode<F>, post: MmrNode<F>, coin: bool, out0: Seq<Envelope<Msg>>, out1: Seq<Envelope<Msg>>, now: u64) -> bool {
    let reports = pre.aux_received.values(pre.round);
    let ct = count_some(reports, true);
    let cf = count_some(reports, false);
    let dominant = if ct > 2 * pre.f { Some(true) } else if cf > 2 * pre.f { Some(false) } else { None };
    let next = (pre.round + 1) as u32;
    if reports.len() < pre.n - pre.f {
        &&& post == pre
        &&& out1 == out0
    } else if dominant == Some(coin) {
        &&& post == (MmrNode { decision: Some(coin), ..pre })
        &&& out1 == out0
    } else {
        let pref = match dominant {
            Some(v) => v,
            None => coin,
        };
        &&& post == (MmrNode {
            preference: pref,
            round: next,
            sent_initial_bv: if pre.sent_initial_bv < next { next } else { pre.sent_initial_bv },
            ..pre
        })
        &&& out1 == if pre.sent_initial_bv < next {
            out0 + sends_to_all(pre.id, pre.everyone@, now, Msg::Bv { r: next, v: pref })
        } else {
            out0
        }
    }
}

/// Validity of an MMR round: with more than `3f` processes, when the
/// `n - f` reports of the current round all carry `v`, the process either
/// decides `v` or keeps its decision and moves on preferring `v`,
/// whatever the coin says.
pub proof fn lemma_mmr_unanimous_reports<F>(
    pre: MmrNode<F>,
    post: MmrNode<F>,
    coin: bool,
    out0: Seq<Envelope<Msg>>,
    out1: Seq<Envelope<Msg>>,
    now: u64,
    v: bool,
)
    requires
        advance_step(pre, post, coin, out0, out1, now),
        pre.f <= pre.n,
        pre.n > 3 * pre.f,
        pre.aux_received.values(pre.round).len() >= pre.n - pre.f,
        forall|k: int| 0 <= k < pre.aux_received.values(pre.round).len() ==> pre.aux_received.values(pre.round)[k]
            == Some(v),
    ensures
        post.decision == Some(v) || (post.decision == pre.decision && post.preference == v),
        post.decision == pre.decision || post.decision == Some(v),
{
    let reports = pre.aux_received.values(pre.round);
    lemma_count_some_all(reports, v);
    lemma_count_some_positive(reports, !v);
    assert(count_some(reports, !v) == 0) by {
        if count_some(reports, !v) >= 1 {
            let k = choose|k: int| 0 <= k < reports.len() && reports[k] == Some(!v);
            assert(reports[k] == Some(v));
        }
    }
}

/// An advance step under some coin value the oracle can return.
pub open spec fn advance_by_coin<F: Fn(u32) -> bool>(pre: MmrNode<F>, post: MmrNode<F>, out0: Seq<Envelope<Msg>>, out1: Seq<Envelope<Msg>>, now: u64) -> bool {
    exists|c: bool| #[trigger] advance_step(pre, post, c, out0, out1, now)
        && (pre.aux_received.values(pre.round).len() < pre.n - pre.f || call_ensures(pre.coin, (pre.round,), c))
}

impl<F: Fn(u32) -> bool> MmrNode<F> {
    /// The coin can be flipped for every round.
    pub open spec fn coin_total(&self) -> bool {
        forall|r: u32| call_requires(self.coin, (r,))
    }

    /// Build a process in round 1 preferring `input`.
    pub fn new(id: NodeId, everyone: Vec<NodeId>, n: usize, f: usize, input: bool, coin: F) -> (s: Self)
        ensures
            s.id == id,
            s.everyone@ == everyone@,
            s.n == n,
            s.f == f,
            s.round == 1,
            s.preference == input,
            s.decision is None,
            s.coin == coin,
            forall|k: (u32, bool)| #[trigger] s.bv_receivers.voters(k) == Set::<NodeId>::empty(),
            s.bv_echoed@ == Set::<(u32, bool)>::empty(),
            s.bin_values@ == Set::<(u32, bool)>::empty(),
            forall|r: u32| #[trigger] s.aux_received.values(r) == Seq::<Option<bool>>::empty(),
            s.sent_initial_bv == 0,
            s.sent_aux == 0,
    {
        MmrNode {
            id,
            everyone,
            n,
            f,
            round: 1,
            preference: input,
            decision: None,
            coin,
            bv_receivers: Tally::new(),
            bv_echoed: KeySet::new(),
            bin_values: KeySet::new(),
            aux_received: RoundLog::new(),
            sent_initial_bv: 0,
            sent_aux: 0,
        }
    }

    /// BV-broadcast this round's preference, once per round.
    fn maybe_initial_bv(&mut self, ctx: &mut StepCtx<Msg>)
        ensures
            final(ctx).now == old(ctx).now,
            final(ctx).timers@ == old(ctx).timers@,
            final(ctx).rng == old(ctx).rng,
            if old(self).sent_initial_bv < old(self).round {
                &&& *final(self) == (MmrNode { sent_initial_bv: old(self).round, ..*old(self) })
                &&& final(ctx).outbox@ == old(ctx).outbox@ + sends_to_all(
                    old(self).id,
                    old(self).everyone@,
                    old(ctx).now,
                    Msg::Bv { r: old(self).round, v: old(self).preference },
                )
            } else {
                &&& *final(self) == *old(self)
                &&& final(ctx).outbox@ == old(ctx).outbox@
            },
    {
        if self.sent_initial_bv < self.round {
            self.sent_initial_bv = self.round;
            ctx.broadcast(self.id, &self.everyone, Msg::Bv { r: self.round, v: self.preference });
        }
    }

    /// First tick: BV-broadcast the round-1 preference.
    pub fn on_tick(&mut self, ctx: &mut StepCtx<Msg>)
        ensures
            final(ctx).now == old(ctx).now,
            final(ctx).timers@ == old(ctx).timers@,
            final(ctx).rng == old(ctx).rng,
            if old(self).sent_initial_bv < old(self).round {
                &&& *final(self) == (MmrNode { sent_initial_bv: old(self).round, ..*old(self) })
                &&& final(ctx).outbox@ == old(ctx).outbox@ + sends_to_all(
                    old(self).id,
                    old(self).everyone@,
                    old(ctx).now,
                    Msg::Bv { r: old(self).round, v: old(self).preference },
                )
            } else {
                &&& *final(self) == *old(self)
                &&& final(ctx).outbox@ == old(ctx).outbox@
            },
    {
        self.maybe_initial_bv(ctx);
    }

    /// Report the current round's `bin_values` (once per round) when it
    /// is non-empty.
    fn maybe_aux(&mut self, ctx: &mut StepCtx<Msg>)
        ensures
            final(ctx).now == old(ctx).now,
            final(ctx).timers@ == old(ctx).timers@,
            final(ctx).rng == old(ctx).rng,
            aux_step(*old(self), *final(self), old(ctx).outbox@, final(ctx).outbox@, old(ctx).now),
    {
        let t = self.bin_values.contains(&(self.round, true));
        let f = self.bin_values.contains(&(self.round, false));
        if !t && !f {
            return;
        }
        if self.sent_aux >= self.round {
            return;
        }
        self.sent_aux = self.round;
        let to_report = if t && !f {
            Some(true)
        } else if f && !t {
            Some(false)
        } else {
            None
        };
        ctx.broadcast(self.id, &self.everyone, Msg::Aux { r: self.round, v: to_report });
    }

    /// With `n - f` reports of the current round in, flip the round's
    /// coin and advance (see `advance_step`); returns the coin.
    fn maybe_advance(&mut self, ctx: &mut StepCtx<Msg>) -> (ret: Ghost<bool>)
        requires
            old(self).f <= old(self).n,
            old(self).coin_total(),
            old(self).aux_received.values(old(self).round).len() >= old(self).n - old(self).f ==> {
                &&& 2 * old(self).f <= usize::MAX
                &&& old(self).round < u32::MAX
            },
        ensures
            final(ctx).now == old(ctx).now,
            final(ctx).timers@ == old(ctx).timers@,
            final(ctx).rng == old(ctx).rng,
            old(self).aux_received.values(old(self).round).len() >= old(self).n - old(self).f ==> call_ensures(
                old(self).coin,
                (old(self).round,),
                ret@,
            ),
            advance_step(*old(self), *final(self), ret@, old(ctx).outbox@, final(ctx).outbox@, old(ctx).now),
    {
        let auxes = self.aux_received.get(self.round);
        if auxes.len() < self.n - self.f {
            return Ghost(false);
        }
        let coin = (self.coin)(self.round);
        let count_true = count_somes(&auxes, true);
        let count_false = count_somes(&auxes, false);
        let dominant = if count_true > 2 * self.f {
            Some(true)
        } else if count_false > 2 * self.f {
            Some(false)
        } else {
            None
        };
        match dominant {
            Some(v) => {
                if v == coin {
                    self.decision = Some(v);
                    return Ghost(coin);
                }
                self.preference = v;
            },
            None => {
                self.preference = coin;
            },
        }
        self.round = self.round + 1;
        self.maybe_initial_bv(ctx);
        Ghost(coin)
    }
}

impl<F: Fn(u32) -> bool> MmrNode<F> {
    /// A `Bv` for `(r, v)` from `from`: count it; with more than `f`
    /// senders relay it once; with more than `2f` add `v` to the binary
    /// values of `r` and, in the current round, try the `Aux` step.
    fn handle_bv(&mut self, from: NodeId, r: u32, v: bool, ctx: &mut StepCtx<Msg>)
        requires
            2 * old(self).f <= usize::MAX,
        ensures
            final(ctx).now == old(ctx).now,
            final(ctx).timers@ == old(ctx).timers@,
            final(ctx).rng == old(ctx).rng,
            ({
                let key = (r, v);
                let voters = old(self).bv_receivers.voters(key).insert(from);
                let relay = voters.len() > old(self).f && !old(self).bv_echoed@.contains(key);
                let mid = MmrNode {
                    bv_receivers: final(self).bv_receivers,
                    bv_echoed: final(self).bv_echoed,
                    bin_values: final(self).bin_values,
                    ..*old(self)
                };
                let out1 = if relay {
                    old(ctx).outbox@ + sends_to_all(old(self).id, old(self).everyone@, old(ctx).now, Msg::Bv { r, v })
                } else {
                    old(ctx).outbox@
                };
                &&& final(self).bv_receivers.voters(key) == voters
                &&& forall|k: (u32, bool)| k != key ==> #[trigger] final(self).bv_receivers.voters(k) == old(self).bv_receivers.voters(k)
                &&& final(self).bv_echoed@ == if voters.len() > old(self).f {
                    old(self).bv_echoed@.insert(key)
                } else {
                    old(self).bv_echoed@
                }
                &&& final(self).bin_values@ == if voters.len() > 2 * old(self).f {
                    old(self).bin_values@.insert(key)
                } else {
                    old(self).bin_values@
                }
                &&& if voters.len() > 2 * old(self).f && r == old(self).round {
                    aux_step(mid, *final(self), out1, final(ctx).outbox@, old(ctx).now)
                } else {
                    *final(self) == mid && final(ctx).outbox@ == out1
                }
            }),
    {
        let key = (r, v);
        let count = self.bv_receivers.add(key, from);
        if count > self.f && self.bv_echoed.insert(key) {
            ctx.broadcast(self.id, &self.everyone, Msg::Bv { r, v });
        }
        if count > 2 * self.f {
            self.bin_values.insert(key);
            if r == self.round {
                self.maybe_aux(ctx);
            }
        }
    }

    /// Handle one delivered message.
    /// - `Bv(r, v)` from `from`: count the sender; with more than `f`
    ///   senders relay `Bv(r, v)` to everyone (once); with more than `2f`
    ///   add `v` to round `r`'s `bin_values` and, for the current round,
    ///   try to report (see `aux_step`).
    /// - `Aux(r, v)`: record it; for the current round try to advance
    ///   (see `advance_step`).
    pub fn on_receive(&mut self, env: Envelope<Msg>, ctx: &mut StepCtx<Msg>)
        requires
            match env.msg {
                Msg::Bv { .. } => 2 * old(self).f <= usize::MAX,
                Msg::Aux { r, .. } => r == old(self).round ==> {
                    &&& old(self).f <= old(self).n
                    &&& old(self).coin_total()
                    &&& old(self).aux_received.values(r).len() + 1 >= old(self).n - old(self).f ==> {
                        &&& 2 * old(self).f <= usize::MAX
                        &&& old(self).round < u32::MAX
                    }
                },
            },
        ensures
            final(ctx).now == old(ctx).now,
            final(ctx).timers@ == old(ctx).timers@,
            final(ctx).rng == old(ctx).rng,
            match env.msg {
                Msg::Bv { r, v } => {
                    let key = (r, v);
                    let voters = old(self).bv_receivers.voters(key).insert(env.from);
                    let relay = voters.len() > old(self).f && !old(self).bv_echoed@.contains(key);
                    let mid = MmrNode {
                        bv_receivers: final(self).bv_receivers,
                        bv_echoed: final(self).bv_echoed,
                        bin_values: final(self).bin_values,
                        ..*old(self)
                    };
                    let out1 = if relay {
                        old(ctx).outbox@ + sends_to_all(old(self).id, old(self).everyone@, old(ctx).now, Msg::Bv { r, v })
                    } else {
                        old(ctx).outbox@
                    };
                    &&& final(self).bv_receivers.voters(key) == voters
                    &&& forall|k: (u32, bool)| k != key ==> #[trigger] final(self).bv_receivers.voters(k) == old(self).bv_receivers.voters(k)
                    &&& final(self).bv_echoed@ == if voters.len() > old(self).f {
                        old(self).bv_echoed@.insert(key)
                    } else {
                        old(self).bv_echoed@
                    }
                    &&& final(self).bin_values@ == if voters.len() > 2 * old(self).f {
                        old(self).bin_values@.insert(key)
                    } else {
                        old(self).bin_values@
                    }
                    &&& if voters.len() > 2 * old(self).f && r == old(self).round {
                        aux_step(mid, *final(self), out1, final(ctx).outbox@, old(ctx).now)
                    } else {
                        *final(self) == mid && final(ctx).outbox@ == out1
                    }
                },
                Msg::Aux { r, v } => {
                    let rec = MmrNode { aux_received: final(self).aux_received, ..*old(self) };
                    &&& rec.aux_received.values(r) == old(self).aux_received.values(r).push(v)
                    &&& forall|q: u32| q != r ==> #[trigger] rec.aux_received.values(q) == old(self).aux_received.values(q)
                    &&& if r == old(self).round {
                        advance_by_coin(rec, *final(self), old(ctx).outbox@, final(ctx).outbox@, old(ctx).now)
                    } else {
                        *final(self) == rec && final(ctx).outbox@ == old(ctx).outbox@
                    }
                },
            },
    {
        match env.msg {
            Msg::Bv { r, v } => {
                self.handle_bv(env.from, r, v, ctx);
            },
            Msg::Aux { r, v } => {
                self.aux_received.push(r, v);
                if r == self.round {
                    let ghost rec = *self;
                    let ghost out0 = ctx.outbox@;
                    let c = self.maybe_advance(ctx);
                    assert(advance_step(rec, *self, c@, out0, ctx.outbox@, ctx.now));
                }
            },
        }
    }
}

} // verus!
