//! A two-process vote exchange showing FLP-style adversarial
//! scheduling: each process decides once it holds both votes, so an
//! adversary that withholds one delivery prevents termination.

use vstd::prelude::*;
use crate::net::{env_of, Adversary, Envelope, NodeId, SimRng, StepCtx, Time};

verus! {

/// Wire message.
#[derive(Clone, Copy, Debug)]
pub enum Msg {
    /// A binary vote.
    Vote {
        /// The vote.
        b: bool,
    },
}

/// A two-process consensus participant.
pub struct VoterNode {
    /// This process's identity.
    pub id: NodeId,
    /// The other process.
    pub peer: NodeId,
    /// This process's input.
    pub input: bool,
    /// Whether the input has been sent.
    pub sent: bool,
    /// Whether the process's own vote has come back.
    pub received_my: bool,
    /// The peer's vote, once received.
    pub received_peer: Option<bool>,
    /// Decision.
    pub decision: Option<bool>,
}

impl VoterNode {
    /// Build a voter with the given input.
    pub fn new(id: NodeId, peer: NodeId, input: bool) -> (s: Self)
        ensures
            s == (VoterNode { id, peer, input, sent: false, received_my: false, received_peer: None, decision: None }),
    {
        VoterNode { id, peer, input, sent: false, received_my: false, received_peer: None, decision: None }
    }

    /// First tick: send the input to itself and to the peer.
    pub fn on_tick(&mut self, ctx: &mut StepCtx<Msg>)
        ensures
            final(ctx).now == old(ctx).now,
            final(ctx).timers@ == old(ctx).timers@,
            final(ctx).rng == old(ctx).rng,
            if !old(self).sent {
                &&& *final(self) == (VoterNode { sent: true, ..*old(self) })
                &&& final(ctx).outbox@ == old(ctx).outbox@.push(
                    env_of(old(self).id, old(self).id, old(ctx).now, Msg::Vote { b: old(self).input }),
                ).push(env_of(old(self).id, old(self).peer, old(ctx).now, Msg::Vote { b: old(self).input }))
            } else {
                &&& *final(self) == *old(self)
                &&& final(ctx).outbox@ == old(ctx).outbox@
            },
    {
        if !self.sent {
            self.sent = true;
            ctx.send(self.id, self.id, Msg::Vote { b: self.input });
            ctx.send(self.id, self.peer, Msg::Vote { b: self.input });
        }
    }

    /// Record a vote (from itself or from the peer) and, once both are
    /// in, decide the OR of the two inputs.
    pub fn on_receive(&mut self, env: Envelope<Msg>, ctx: &mut StepCtx<Msg>)
        ensures
            final(ctx).now == old(ctx).now,
            final(ctx).timers@ == old(ctx).timers@,
            final(ctx).rng == old(ctx).rng,
            final(ctx).outbox@ == old(ctx).outbox@,
            match env.msg {
                Msg::Vote { b } => {
                    let mine = old(self).received_my || env.from == old(self).id;
                    let theirs = if env.from == old(self).id { old(self).received_peer } else { Some(b) };
                    *final(self) == (VoterNode {
                        received_my: mine,
                        received_peer: theirs,
                        decision: if mine && theirs is Some {
                            Some(old(self).input || theirs->0)
                        } else {
                            old(self).decision
                        },
                        ..*old(self)
                    })
                },
            },
    {
        let Msg::Vote { b } = env.msg;
        if env.from.0 == self.id.0 {
            self.received_my = true;
        } else {
            self.received_peer = Some(b);
        }
        self.try_decide();
    }

    fn try_decide(&mut self)
        ensures
            *final(self) == (VoterNode {
                decision: if old(self).received_my && old(self).received_peer is Some {
                    Some(old(self).input || old(self).received_peer->0)
                } else {
                    old(self).decision
                },
                ..*old(self)
            }),
    {
        if self.received_my && self.received_peer.is_some() {
            let peer = self.received_peer.unwrap();
            self.decision = Some(self.input || peer);
        }
    }
}

/// Delivers everything one tick later except peer messages addressed to
/// `target`, which are withheld forever.
pub struct WithholdToOne {
    /// The recipient whose peer messages are withheld.
    pub target: NodeId,
}

impl Adversary<Msg> for WithholdToOne {
    open spec fn admits(&self, now: Time) -> bool {
        now < Time::MAX
    }

    /// A message from another node to the target is withheld; any other
    /// arrives one tick later.
    open spec fn outcome(&self, env: Envelope<Msg>, now: Time, post: Self, out: Seq<(Time, Envelope<Msg>)>) -> bool {
        &&& post == *self
        &&& if env.to == self.target && env.from != self.target {
            out.len() == 0
        } else {
            out == seq![((now + 1) as Time, env)]
        }
    }

    fn intercept(&mut self, env: Envelope<Msg>, now: Time, rng: &mut SimRng) -> (r: Vec<(Time, Envelope<Msg>)>)
        ensures
            *final(rng) == *old(rng),
    {
        if env.to.0 == self.target.0 && env.from.0 != self.target.0 {
            return Vec::new();
        }
        let mut r = Vec::new();
        r.push((now + 1, env));
        r
    }
}

} // verus!
