//! Two-phase commit: the coordinator collects every participant's vote
//! and commits only if all voted yes.

use vstd::prelude::*;
use crate::net::{env_of, sends_to_all, Envelope, NodeId, StepCtx};

verus! {

/// 2PC wire message.
#[derive(Clone, Copy, Debug)]
pub enum Msg {
    /// Coordinator to participants: prepare to commit.
    Prepare,
    /// Participant to coordinator: vote yes or no.
    Vote {
        /// Yes (true) or no (false).
        yes: bool,
    },
    /// Coordinator to participants: the final decision.
    Decide {
        /// Commit (true) or abort (false).
        commit: bool,
    },
}

/// 2PC node state.
#[derive(Clone, Copy, Debug, PartialEq, Eq, Structural)]
pub enum State {
    /// Initial.
    Initial,
    /// Voted; awaiting the decision.
    Prepared,
    /// Committed.
    Committed,
    /// Aborted.
    Aborted,
}

/// 2PC node (coordinator or participant).
pub struct TpcNode {
    /// This node's identity.
    pub id: NodeId,
    /// The coordinator.
    pub coord: NodeId,
    /// Participants (coordinator only).
    pub participants: Vec<NodeId>,
    /// Whether this node is the coordinator.
    pub is_coord: bool,
    /// Whether this participant votes yes.
    pub will_vote_yes: bool,
    /// Coordinator: votes received so far.
    pub votes_received: Vec<bool>,
    /// Coordinator: whether to crash once all votes are in.
    pub crash_after_prepare: bool,
    /// Whether the node has crashed.
    pub crashed: bool,
    /// Local state.
    pub state: State,
    /// Whether the coordinator has sent `Prepare`.
    pub sent_prepare: bool,
}

/// Whether every vote is yes.
pub open spec fn all_yes(votes: Seq<bool>) -> bool {
    forall|i: int| 0 <= i < votes.len() ==> votes[i]
}

impl TpcNode {
    /// Build a coordinator for `participants`.
    pub fn coordinator(id: NodeId, participants: Vec<NodeId>, crash_after_prepare: bool) -> (s: Self)
        ensures
            s.id == id,
            s.coord == id,
            s.participants@ == participants@,
            s.is_coord,
            s.will_vote_yes,
            s.votes_received@.len() == 0,
            s.crash_after_prepare == crash_after_prepare,
            !s.crashed,
            s.state == State::Initial,
            !s.sent_prepare,
    {
        TpcNode {
            id,
            coord: id,
            participants,
            is_coord: true,
            will_vote_yes: true,
            votes_received: Vec::new(),
            crash_after_prepare,
            crashed: false,
            state: State::Initial,
            sent_prepare: false,
        }
    }

    /// Build a participant that will vote `will_vote_yes`.
    pub fn participant(id: NodeId, coord: NodeId, will_vote_yes: bool) -> (s: Self)
        ensures
            s.id == id,
            s.coord == coord,
            s.participants@.len() == 0,
            !s.is_coord,
            s.will_vote_yes == will_vote_yes,
            s.votes_received@.len() == 0,
            !s.crash_after_prepare,
            !s.crashed,
            s.state == State::Initial,
            !s.sent_prepare,
    {
        TpcNode {
            id,
            coord,
            participants: Vec::new(),
            is_coord: false,
            will_vote_yes,
            votes_received: Vec::new(),
            crash_after_prepare: false,
            crashed: false,
            state: State::Initial,
            sent_prepare: false,
        }
    }

    /// First tick: the coordinator sends `Prepare` to every participant.
    pub fn on_tick(&mut self, ctx: &mut StepCtx<Msg>)
        ensures
            final(ctx).now == old(ctx).now,
            final(ctx).timers@ == old(ctx).timers@,
            final(ctx).rng == old(ctx).rng,
            if old(self).is_coord && !old(self).sent_prepare && !old(self).crashed {
                &&& *final(self) == (TpcNode { sent_prepare: true, ..*old(self) })
                &&& final(ctx).outbox@ == old(ctx).outbox@ + sends_to_all(
                    old(self).id,
                    old(self).participants@,
                    old(ctx).now,
                    Msg::Prepare,
                )
            } else {
                &&& *final(self) == *old(self)
                &&& final(ctx).outbox@ == old(ctx).outbox@
            },
    {
        if self.is_coord && !self.sent_prepare && !self.crashed {
            self.sent_prepare = true;
            ctx.broadcast(self.id, &self.participants, Msg::Prepare);
        }
    }

    /// Handle one delivered message (a crashed node ignores everything).
    /// A participant answers `Prepare` with its vote; the coordinator,
    /// once every participant has voted, commits iff all voted yes and
    /// tells them (unless it crashes first); a participant adopts the
    /// decision.
    pub fn on_receive(&mut self, env: Envelope<Msg>, ctx: &mut StepCtx<Msg>)
        requires
            !old(self).crashed ==> match env.msg {
                Msg::Vote { .. } => old(self).is_coord,
                _ => !old(self).is_coord,
            },
        ensures
            final(ctx).now == old(ctx).now,
            final(ctx).timers@ == old(ctx).timers@,
            final(ctx).rng == old(ctx).rng,
            if old(self).crashed {
                &&& *final(self) == *old(self)
                &&& final(ctx).outbox@ == old(ctx).outbox@
            } else {
                match env.msg {
                    Msg::Prepare => {
                        &&& *final(self) == (TpcNode { state: State::Prepared, ..*old(self) })
                        &&& final(ctx).outbox@ == old(ctx).outbox@.push(
                            env_of(old(self).id, old(self).coord, old(ctx).now, Msg::Vote { yes: old(self).will_vote_yes }),
                        )
                    },
                    Msg::Vote { yes } => {
                        let votes = old(self).votes_received@.push(yes);
                        &&& final(self).votes_received@ == votes
                        &&& if votes.len() != old(self).participants@.len() {
                            &&& *final(self) == (TpcNode { votes_received: final(self).votes_received, ..*old(self) })
                            &&& final(ctx).outbox@ == old(ctx).outbox@
                        } else if old(self).crash_after_prepare {
                            &&& *final(self) == (TpcNode { votes_received: final(self).votes_received, crashed: true, ..*old(self) })
                            &&& final(ctx).outbox@ == old(ctx).outbox@
                        } else {
                            let commit = all_yes(votes);
                            &&& *final(self) == (TpcNode {
                                votes_received: final(self).votes_received,
                                state: if commit { State::Committed } else { State::Aborted },
                                ..*old(self)
                            })
                            &&& final(ctx).outbox@ == old(ctx).outbox@ + sends_to_all(
                                old(self).id,
                                old(self).participants@,
                                old(ctx).now,
                                Msg::Decide { commit },
                            )
                        }
                    },
                    Msg::Decide { commit } => {
                        &&& *final(self) == (TpcNode {
                            state: if commit { State::Committed } else { State::Aborted },
                            ..*old(self)
                        })
                        &&& final(ctx).outbox@ == old(ctx).outbox@
                    },
                }
            },
    {
        if self.crashed {
            return;
        }
        match env.msg {
            Msg::Prepare => {
                self.state = State::Prepared;
                ctx.send(self.id, self.coord, Msg::Vote { yes: self.will_vote_yes });
            },
            Msg::Vote { yes } => {
                self.votes_received.push(yes);
                if self.votes_received.len() == self.participants.len() {
                    if self.crash_after_prepare {
                        self.crashed = true;
                        return;
                    }
                    let mut commit = true;
                    let mut i: usize = 0;
                    while i < self.votes_received.len()
                        invariant
                            i <= self.votes_received@.len(),
                            commit == all_yes(self.votes_received@.take(i as int)),
                        decreases self.votes_received@.len() - i,
                    {
                        assert(self.votes_received@.take(i + 1) =~= self.votes_received@.take(i as int).push(
                            self.votes_received@[i as int],
                        ));
                        proof {
                            let v = self.votes_received@;
                            let t = v.take(i + 1);
                            if all_yes(t) {
                                assert(t[i as int] == v[i as int]);
                                assert forall|k: int| 0 <= k < i implies v.take(i as int)[k] by {
                                    assert(t[k] == v.take(i as int)[k]);
                                }
                            }
                        }
                        commit = commit && self.votes_received[i];
                        i = i + 1;
                    }
                    assert(self.votes_received@.take(i as int) =~= self.votes_received@);
                    self.state = if commit { State::Committed } else { State::Aborted };
                    ctx.broadcast(self.id, &self.participants, Msg::Decide { commit });
                }
            },
            Msg::Decide { commit } => {
                self.state = if commit { State::Committed } else { State::Aborted };
            },
        }
    }
}

} // verus!
