//! Two generals over a lossy channel: the receiver decides the proposed
//! attack time on receipt and acknowledges; the proposer decides only
//! after `rounds` acknowledgements, so losing the last one breaks
//! agreement.

use vstd::prelude::*;
use crate::net::{env_of, Envelope, NodeId, StepCtx};

verus! {

/// Wire message.
#[derive(Clone, Copy, Debug)]
pub enum Msg {
    /// Proposal of an attack time.
    Propose {
        /// Attack time.
        t: u64,
    },
    /// Acknowledgement with a sequence number.
    Ack {
        /// Mirrored proposal time.
        t: u64,
        /// Sequence number; the proposer decides once it reaches
        /// `rounds`.
        seq: u32,
    },
}

/// A two-generals process.
pub struct General {
    /// This general's identity.
    pub id: NodeId,
    /// The other general.
    pub peer: NodeId,
    /// Whether this general proposes.
    pub is_proposer: bool,
    /// Acknowledgements needed before the proposer decides.
    pub rounds: u32,
    /// Last sequence number observed.
    pub last_seq: u32,
    /// Attack-time decision (none = retreat).
    pub decision: Option<u64>,
    /// The proposed attack time.
    pub proposed_at: u64,
    /// Whether the proposal has been sent.
    pub proposed: bool,
}

impl General {
    /// Build a general.
    pub fn new(id: NodeId, peer: NodeId, is_proposer: bool, rounds: u32, proposed_at: u64) -> (s: Self)
        ensures
            s == (General { id, peer, is_proposer, rounds, last_seq: 0, decision: None, proposed_at, proposed: false }),
    {
        General { id, peer, is_proposer, rounds, last_seq: 0, decision: None, proposed_at, proposed: false }
    }

    /// First tick: the proposer sends its attack time.
    pub fn on_tick(&mut self, ctx: &mut StepCtx<Msg>)
        ensures
            final(ctx).now == old(ctx).now,
            final(ctx).timers@ == old(ctx).timers@,
            final(ctx).rng == old(ctx).rng,
            if old(self).is_proposer && !old(self).proposed {
                &&& *final(self) == (General { proposed: true, ..*old(self) })
                &&& final(ctx).outbox@ == old(ctx).outbox@.push(
                    env_of(old(self).id, old(self).peer, old(ctx).now, Msg::Propose { t: old(self).proposed_at }),
                )
            } else {
                &&& *final(self) == *old(self)
                &&& final(ctx).outbox@ == old(ctx).outbox@
            },
    {
        if self.is_proposer && !self.proposed {
            ctx.send(self.id, self.peer, Msg::Propose { t: self.proposed_at });
            self.proposed = true;
        }
    }

    /// Handle one delivered message. The receiver decides a proposal and
    /// acknowledges it with sequence 1; each side answers an
    /// acknowledgement with the next sequence number until `rounds` is
    /// reached, where the proposer decides.
    pub fn on_receive(&mut self, env: Envelope<Msg>, ctx: &mut StepCtx<Msg>)
        requires
            env.msg matches Msg::Ack { seq, .. } ==> seq < u32::MAX,
        ensures
            final(ctx).now == old(ctx).now,
            final(ctx).timers@ == old(ctx).timers@,
            final(ctx).rng == old(ctx).rng,
            match env.msg {
                Msg::Propose { t } => if !old(self).is_proposer {
                    &&& *final(self) == (General { decision: Some(t), ..*old(self) })
                    &&& final(ctx).outbox@ == old(ctx).outbox@.push(env_of(old(self).id, old(self).peer, old(ctx).now, Msg::Ack { t, seq: 1 }))
                } else {
                    &&& *final(self) == *old(self)
                    &&& final(ctx).outbox@ == old(ctx).outbox@
                },
                Msg::Ack { t, seq } => {
                    let next = env_of(old(self).id, old(self).peer, old(ctx).now, Msg::Ack { t, seq: (seq + 1) as u32 });
                    if old(self).is_proposer && seq >= old(self).rounds {
                        &&& *final(self) == (General { last_seq: seq, decision: Some(t), ..*old(self) })
                        &&& final(ctx).outbox@ == old(ctx).outbox@
                    } else if old(self).is_proposer || seq < old(self).rounds {
                        &&& *final(self) == (General { last_seq: seq, ..*old(self) })
                        &&& final(ctx).outbox@ == old(ctx).outbox@.push(next)
                    } else {
                        &&& *final(self) == (General { last_seq: seq, ..*old(self) })
                        &&& final(ctx).outbox@ == old(ctx).outbox@
                    }
                },
            },
    {
        match env.msg {
            Msg::Propose { t } => {
                if !self.is_proposer {
                    self.decision = Some(t);
                    ctx.send(self.id, self.peer, Msg::Ack { t, seq: 1 });
                }
            },
            Msg::Ack { t, seq } => {
                self.last_seq = seq;
                if self.is_proposer {
                    if seq >= self.rounds {
                        self.decision = Some(t);
                    } else {
                        ctx.send(self.id, self.peer, Msg::Ack { t, seq: seq + 1 });
                    }
                } else {
                    if seq < self.rounds {
                        ctx.send(self.id, self.peer, Msg::Ack { t, seq: seq + 1 });
                    }
                }
            },
        }
    }
}

} // verus!
