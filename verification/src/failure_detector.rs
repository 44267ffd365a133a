//! A heartbeat failure detector: every node beats to its peers each
//! `interval` and suspects a peer it has not heard from for more than
//! `timeout` ticks.

use vstd::prelude::*;
use crate::collections::{KeyMap, KeySet};
use crate::net::{sends_to_all, Envelope, NodeId, StepCtx, Time};
use crate::raft::{others, others_of};

verus! {

/// Wire message.
#[derive(Clone, Copy, Debug)]
pub enum Msg {
    /// "I am alive at time `at`".
    Heartbeat {
        /// Sender's time at send.
        at: Time,
    },
}

/// A heartbeat detector node.
pub struct HeartbeatNode {
    /// This node's identity.
    pub id: NodeId,
    /// All nodes, this one included.
    pub peers: Vec<NodeId>,
    /// Suspect a peer silent for more than this many ticks.
    pub timeout: Time,
    /// Heartbeat interval.
    pub interval: Time,
    /// Send time of the last heartbeat received from each peer.
    pub last_seen: KeyMap<NodeId, Time>,
    /// When the next heartbeat is due.
    pub next_beat: Time,
    /// Whether this node has crashed (it then sends no heartbeats).
    pub crashed: bool,
    /// Currently suspected peers.
    pub suspected: KeySet<NodeId>,
}

/// When `p` was last heard from (0 if never).
pub open spec fn last_heard(last_seen: Map<NodeId, Time>, p: NodeId) -> int {
    if last_seen.contains_key(p) {
        last_seen[p] as int
    } else {
        0
    }
}

/// The peers a node `id` suspects at `now`: those other than itself not
/// heard from for more than `timeout` ticks.
pub open spec fn suspects(peers: Seq<NodeId>, id: NodeId, last_seen: Map<NodeId, Time>, timeout: Time, now: Time) -> Set<NodeId> {
    Set::new(|p: NodeId| peers.contains(p) && p != id && now > last_heard(last_seen, p) + timeout)
}

impl HeartbeatNode {
    /// Build a heartbeat detector node.
    pub fn new(id: NodeId, peers: Vec<NodeId>, timeout: Time, interval: Time) -> (s: Self)
        ensures
            s.id == id,
            s.peers@ == peers@,
            s.timeout == timeout,
            s.interval == interval,
            s.last_seen@ == Map::<NodeId, Time>::empty(),
            s.next_beat == 0,
            !s.crashed,
            s.suspected@ == Set::<NodeId>::empty(),
    {
        HeartbeatNode {
            id,
            peers,
            timeout,
            interval,
            last_seen: KeyMap::new(),
            next_beat: 0,
            crashed: false,
            suspected: KeySet::new(),
        }
    }

    /// Recompute the suspects at `now`.
    fn refresh_suspects(&mut self, now: Time)
        ensures
            final(self).suspected@ == suspects(old(self).peers@, old(self).id, old(self).last_seen@, old(self).timeout, now),
            *final(self) == (HeartbeatNode { suspected: final(self).suspected, ..*old(self) }),
    {
        self.suspected.clear();
        let mut i: usize = 0;
        while i < self.peers.len()
            invariant
                i <= self.peers@.len(),
                *self == (HeartbeatNode { suspected: self.suspected, ..*old(self) }),
                self.suspected@ == suspects(self.peers@.take(i as int), self.id, self.last_seen@, self.timeout, now),
            decreases self.peers@.len() - i,
        {
            let p = self.peers[i];
            let ghost pre = self.suspected@;
            if p.0 != self.id.0 {
                let last = match self.last_seen.get(&p) {
                    Some(t) => *t,
                    None => 0,
                };
                if now > last && now - last > self.timeout {
                    self.suspected.insert(p);
                }
            }
            assert(self.suspected@ =~= suspects(self.peers@.take(i + 1), self.id, self.last_seen@, self.timeout, now)) by {
                let a = self.peers@.take(i as int);
                let b = self.peers@.take(i + 1);
                assert(b =~= a.push(p));
                assert forall|q: NodeId| b.contains(q) <==> (a.contains(q) || q == p) by {
                    if q == p {
                        assert(b[i as int] == p);
                    }
                    if b.contains(q) && q != p {
                        let k = choose|k: int| 0 <= k < b.len() && #[trigger] b[k] == q;
                        assert(a[k] == q);
                    }
                    if a.contains(q) {
                        let k = choose|k: int| 0 <= k < a.len() && #[trigger] a[k] == q;
                        assert(b[k] == q);
                    }
                }
            }
            i = i + 1;
        }
        assert(self.peers@.take(i as int) =~= self.peers@);
    }

    /// Tick: recompute the suspects; if alive and a beat is due, beat to
    /// every other node and schedule the next beat; then arm a timer for
    /// the next interesting time.
    pub fn on_tick(&mut self, ctx: &mut StepCtx<Msg>)
        requires
            old(ctx).now < Time::MAX,
            !old(self).crashed && old(ctx).now >= old(self).next_beat ==> old(ctx).now + old(self).interval
                <= Time::MAX,
        ensures
            ({
                let now = old(ctx).now;
                let beat = !old(self).crashed && now >= old(self).next_beat;
                let next_beat = if beat { (now + old(self).interval) as Time } else { old(self).next_beat };
                let next = if next_beat > now + 1 { next_beat } else { (now + 1) as Time };
                &&& final(self).suspected@ == suspects(old(self).peers@, old(self).id, old(self).last_seen@, old(self).timeout, now)
                &&& *final(self) == (HeartbeatNode { suspected: final(self).suspected, next_beat, ..*old(self) })
                &&& final(ctx).now == now
                &&& final(ctx).rng == old(ctx).rng
                &&& final(ctx).outbox@ == if beat {
                    old(ctx).outbox@ + sends_to_all(old(self).id, others(old(self).peers@, old(self).id), now, Msg::Heartbeat { at: now })
                } else {
                    old(ctx).outbox@
                }
                &&& final(ctx).timers@ == old(ctx).timers@.push(((next - now) as Time, 0u64))
            }),
    {
        let now = ctx.now;
        self.refresh_suspects(now);
        if !self.crashed && now >= self.next_beat {
            self.next_beat = now + self.interval;
            let targets = others_of(&self.peers, self.id);
            ctx.broadcast(self.id, &targets, Msg::Heartbeat { at: now });
        }
        let next = if self.next_beat > now + 1 { self.next_beat } else { now + 1 };
        ctx.schedule_timer(next - now, 0);
    }

    /// Timer: the same as a tick.
    pub fn on_timer(&mut self, _id: u64, ctx: &mut StepCtx<Msg>)
        requires
            old(ctx).now < Time::MAX,
            !old(self).crashed && old(ctx).now >= old(self).next_beat ==> old(ctx).now + old(self).interval
                <= Time::MAX,
        ensures
            ({
                let now = old(ctx).now;
                let beat = !old(self).crashed && now >= old(self).next_beat;
                let next_beat = if beat { (now + old(self).interval) as Time } else { old(self).next_beat };
                let next = if next_beat > now + 1 { next_beat } else { (now + 1) as Time };
                &&& final(self).suspected@ == suspects(old(self).peers@, old(self).id, old(self).last_seen@, old(self).timeout, now)
                &&& *final(self) == (HeartbeatNode { suspected: final(self).suspected, next_beat, ..*old(self) })
                &&& final(ctx).now == now
                &&& final(ctx).rng == old(ctx).rng
                &&& final(ctx).outbox@ == if beat {
                    old(ctx).outbox@ + sends_to_all(old(self).id, others(old(self).peers@, old(self).id), now, Msg::Heartbeat { at: now })
                } else {
                    old(ctx).outbox@
                }
                &&& final(ctx).timers@ == old(ctx).timers@.push(((next - now) as Time, 0u64))
            }),
    {
        self.on_tick(ctx);
    }

    /// A heartbeat records its send time as the sender's last sign of
    /// life.
    pub fn on_receive(&mut self, env: Envelope<Msg>, ctx: &mut StepCtx<Msg>)
        ensures
            *final(ctx) == *old(ctx),
            final(self).last_seen@ == old(self).last_seen@.insert(env.from, env.sent_at),
            *final(self) == (HeartbeatNode { last_seen: final(self).last_seen, ..*old(self) }),
    {
        match env.msg {
            Msg::Heartbeat { at: _ } => {
                self.last_seen.insert(env.from, env.sent_at);
            },
        }
    }
}

} // verus!
