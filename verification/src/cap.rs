//! CAP with a two-replica register. The AP variant answers a read from
//! local state at once (consistency is lost under partition); the CP
//! variant answers only after its peer acknowledges a probe
//! (availability is lost under partition).

use vstd::prelude::*;
use crate::net::{env_of, Adversary, Envelope, NodeId, SimRng, StepCtx, Time};

verus! {

/// Wire message.
#[derive(Clone, Copy, Debug)]
pub enum Msg {
    /// Replicate a write to the peer.
    Write {
        /// Sequence number.
        seq: u64,
        /// New value.
        value: u64,
    },
    /// Acknowledge a write.
    Ack {
        /// Sequence number being acknowledged.
        seq: u64,
    },
}

/// The AP register: reads are answered from local state.
#[derive(Clone, Debug)]
pub struct ApRegister {
    /// This node's identity.
    pub id: NodeId,
    /// The peer.
    pub peer: NodeId,
    /// Locally observed value.
    pub local: u64,
    /// Sequence number of writes.
    pub seq: u64,
    /// Result of the read, once issued.
    pub last_read: Option<u64>,
    /// When this node reads.
    pub read_at: Option<Time>,
    /// Initial write to issue (the writing replica only).
    pub initial_write: Option<u64>,
    /// Whether the initial write has been issued.
    pub initial_write_done: bool,
}

/// The AP register's state after the initial write step of a tick.
pub open spec fn ap_after_write(s: ApRegister) -> ApRegister {
    if !s.initial_write_done && s.initial_write is Some {
        ApRegister { initial_write_done: true, local: s.initial_write->0, seq: (s.seq + 1) as u64, ..s }
    } else {
        s
    }
}

/// The messages the initial write step of a tick sends.
pub open spec fn write_sends(done: bool, write: Option<u64>, seq: u64, from: NodeId, to: NodeId, now: u64) -> Seq<Envelope<Msg>> {
    if !done && write is Some {
        seq![env_of(from, to, now, Msg::Write { seq: (seq + 1) as u64, value: write->0 })]
    } else {
        Seq::empty()
    }
}

impl ApRegister {
    /// Build an AP register node.
    pub fn new(id: NodeId, peer: NodeId, initial_write: Option<u64>, read_at: Option<Time>) -> (s: Self)
        ensures
            s == (ApRegister { id, peer, local: 0, seq: 0, last_read: None, read_at, initial_write, initial_write_done: false }),
    {
        ApRegister { id, peer, local: 0, seq: 0, last_read: None, read_at, initial_write, initial_write_done: false }
    }

    /// Tick: issue the initial write (once), then either arm the read
    /// timer (read time in the future) or perform a due read from local
    /// state.
    pub fn on_tick(&mut self, ctx: &mut StepCtx<Msg>)
        requires
            !old(self).initial_write_done && old(self).initial_write is Some ==> old(self).seq < u64::MAX,
        ensures
            final(ctx).now == old(ctx).now,
            final(ctx).rng == old(ctx).rng,
            final(ctx).outbox@ == old(ctx).outbox@ + write_sends(
                old(self).initial_write_done,
                old(self).initial_write,
                old(self).seq,
                old(self).id,
                old(self).peer,
                old(ctx).now,
            ),
            ({
                let w = ap_after_write(*old(self));
                match old(self).read_at {
                    Some(t) => if t > old(ctx).now {
                        &&& *final(self) == w
                        &&& final(ctx).timers@ == old(ctx).timers@.push(((t - old(ctx).now) as u64, 1u64))
                    } else {
                        &&& *final(self) == if w.last_read is None { ApRegister { last_read: Some(w.local), ..w } } else { w }
                        &&& final(ctx).timers@ == old(ctx).timers@
                    },
                    None => {
                        &&& *final(self) == w
                        &&& final(ctx).timers@ == old(ctx).timers@
                    },
                }
            }),
    {
        if !self.initial_write_done && self.initial_write.is_some() {
            let v = self.initial_write.unwrap();
            self.initial_write_done = true;
            self.local = v;
            self.seq = self.seq + 1;
            ctx.send(self.id, self.peer, Msg::Write { seq: self.seq, value: v });
        }
        match self.read_at {
            Some(t) => {
                if t > ctx.now {
                    ctx.schedule_timer(t - ctx.now, 1);
                } else if self.last_read.is_none() {
                    self.last_read = Some(self.local);
                }
            },
            None => {},
        }
    }

    /// Timer: perform the read from local state if it is due and not yet
    /// done.
    pub fn on_timer(&mut self, _id: u64, ctx: &mut StepCtx<Msg>)
        ensures
            *final(ctx) == *old(ctx),
            *final(self) == match old(self).read_at {
                Some(t) => if old(ctx).now >= t && old(self).last_read is None {
                    ApRegister { last_read: Some(old(self).local), ..*old(self) }
                } else {
                    *old(self)
                },
                None => *old(self),
            },
    {
        match self.read_at {
            Some(t) => {
                if ctx.now >= t && self.last_read.is_none() {
                    self.last_read = Some(self.local);
                }
            },
            None => {},
        }
    }

    /// A write from the peer overwrites the local value and is
    /// acknowledged; an acknowledgement changes nothing.
    pub fn on_receive(&mut self, env: Envelope<Msg>, ctx: &mut StepCtx<Msg>)
        ensures
            final(ctx).now == old(ctx).now,
            final(ctx).timers@ == old(ctx).timers@,
            final(ctx).rng == old(ctx).rng,
            match env.msg {
                Msg::Write { seq, value } => {
                    &&& *final(self) == (ApRegister {
                        local: value,
                        seq: if seq > old(self).seq { seq } else { old(self).seq },
                        ..*old(self)
                    })
                    &&& final(ctx).outbox@ == old(ctx).outbox@.push(env_of(old(self).id, env.from, old(ctx).now, Msg::Ack { seq }))
                },
                Msg::Ack { .. } => {
                    &&& *final(self) == *old(self)
                    &&& final(ctx).outbox@ == old(ctx).outbox@
                },
            },
    {
        match env.msg {
            Msg::Write { seq, value } => {
                self.local = value;
                if seq > self.seq {
                    self.seq = seq;
                }
                ctx.send(self.id, env.from, Msg::Ack { seq });
            },
            Msg::Ack { .. } => {},
        }
    }
}

/// The CP register: a read waits for the peer to acknowledge a probe.
#[derive(Clone, Debug)]
pub struct CpRegister {
    /// This node's identity.
    pub id: NodeId,
    /// The peer.
    pub peer: NodeId,
    /// Locally observed value.
    pub local: u64,
    /// Sequence number of writes.
    pub seq: u64,
    /// Result of the read, once available.
    pub last_read: Option<u64>,
    /// When this node reads.
    pub read_at: Option<Time>,
    /// Whether a read awaits the peer's acknowledgement.
    pub pending_read: bool,
    /// Sequence number of the last probe.
    pub probe_seq: u64,
    /// Initial write to issue.
    pub initial_write: Option<u64>,
    /// Whether the initial write has been issued.
    pub initial_write_done: bool,
}

/// Whether a CP read is due at `now` and not yet issued.
pub open spec fn cp_read_due(s: CpRegister, now: u64) -> bool {
    &&& s.read_at is Some
    &&& now >= s.read_at->0
    &&& s.last_read is None
    &&& !s.pending_read
}

impl CpRegister {
    /// Build a CP register node.
    pub fn new(id: NodeId, peer: NodeId, initial_write: Option<u64>, read_at: Option<Time>) -> (s: Self)
        ensures
            s == (CpRegister {
                id,
                peer,
                local: 0,
                seq: 0,
                last_read: None,
                read_at,
                pending_read: false,
                probe_seq: 0,
                initial_write,
                initial_write_done: false,
            }),
    {
        CpRegister {
            id,
            peer,
            local: 0,
            seq: 0,
            last_read: None,
            read_at,
            pending_read: false,
            probe_seq: 0,
            initial_write,
            initial_write_done: false,
        }
    }

    /// Issue a due read: mark it pending and probe the peer with the
    /// local value.
    fn try_issue_read(&mut self, ctx: &mut StepCtx<Msg>)
        requires
            cp_read_due(*old(self), old(ctx).now) ==> old(self).probe_seq < u64::MAX,
        ensures
            final(ctx).now == old(ctx).now,
            final(ctx).timers@ == old(ctx).timers@,
            final(ctx).rng == old(ctx).rng,
            if cp_read_due(*old(self), old(ctx).now) {
                &&& *final(self) == (CpRegister { pending_read: true, probe_seq: (old(self).probe_seq + 1) as u64, ..*old(self) })
                &&& final(ctx).outbox@ == old(ctx).outbox@.push(
                    env_of(old(self).id, old(self).peer, old(ctx).now, Msg::Write { seq: (old(self).probe_seq + 1) as u64, value: old(self).local }),
                )
            } else {
                &&& *final(self) == *old(self)
                &&& final(ctx).outbox@ == old(ctx).outbox@
            },
    {
        match self.read_at {
            Some(t) => {
                if ctx.now >= t && self.last_read.is_none() && !self.pending_read {
                    self.pending_read = true;
                    self.probe_seq = self.probe_seq + 1;
                    ctx.send(self.id, self.peer, Msg::Write { seq: self.probe_seq, value: self.local });
                }
            },
            None => {},
        }
    }

    /// Tick: issue the initial write (once), arm the read timer if the
    /// read time is in the future, and issue a due read.
    pub fn on_tick(&mut self, ctx: &mut StepCtx<Msg>)
        requires
            !old(self).initial_write_done && old(self).initial_write is Some ==> old(self).seq < u64::MAX,
            cp_read_due(*old(self), old(ctx).now) ==> old(self).probe_seq < u64::MAX,
        ensures
            final(ctx).now == old(ctx).now,
            final(ctx).rng == old(ctx).rng,
            ({
                let w = if !old(self).initial_write_done && old(self).initial_write is Some {
                    CpRegister {
                        initial_write_done: true,
                        local: old(self).initial_write->0,
                        seq: (old(self).seq + 1) as u64,
                        ..*old(self)
                    }
                } else {
                    *old(self)
                };
                let sent = write_sends(
                    old(self).initial_write_done,
                    old(self).initial_write,
                    old(self).seq,
                    old(self).id,
                    old(self).peer,
                    old(ctx).now,
                );
                &&& final(ctx).timers@ == match old(self).read_at {
                    Some(t) => if t > old(ctx).now {
                        old(ctx).timers@.push(((t - old(ctx).now) as u64, 1u64))
                    } else {
                        old(ctx).timers@
                    },
                    None => old(ctx).timers@,
                }
                &&& if cp_read_due(w, old(ctx).now) {
                    &&& *final(self) == (CpRegister { pending_read: true, probe_seq: (w.probe_seq + 1) as u64, ..w })
                    &&& final(ctx).outbox@ == old(ctx).outbox@ + sent + seq![
                        env_of(w.id, w.peer, old(ctx).now, Msg::Write { seq: (w.probe_seq + 1) as u64, value: w.local }),
                    ]
                } else {
                    &&& *final(self) == w
                    &&& final(ctx).outbox@ == old(ctx).outbox@ + sent
                }
            }),
    {
        let ghost o = ctx.outbox@;
        if !self.initial_write_done && self.initial_write.is_some() {
            let v = self.initial_write.unwrap();
            self.initial_write_done = true;
            self.local = v;
            self.seq = self.seq + 1;
            ctx.send(self.id, self.peer, Msg::Write { seq: self.seq, value: v });
        }
        assert(ctx.outbox@ =~= o + write_sends(
            old(self).initial_write_done,
            old(self).initial_write,
            old(self).seq,
            old(self).id,
            old(self).peer,
            ctx.now,
        ));
        match self.read_at {
            Some(t) => {
                if t > ctx.now {
                    ctx.schedule_timer(t - ctx.now, 1);
                }
            },
            None => {},
        }
        let ghost o2 = ctx.outbox@;
        self.try_issue_read(ctx);
        assert(o2 + seq![env_of(self.id, self.peer, ctx.now, Msg::Write { seq: self.probe_seq, value: self.local })] =~= o2.push(
            env_of(self.id, self.peer, ctx.now, Msg::Write { seq: self.probe_seq, value: self.local }),
        ));
    }

    /// Timer: issue the read if it is due.
    pub fn on_timer(&mut self, _id: u64, ctx: &mut StepCtx<Msg>)
        requires
            cp_read_due(*old(self), old(ctx).now) ==> old(self).probe_seq < u64::MAX,
        ensures
            final(ctx).now == old(ctx).now,
            final(ctx).timers@ == old(ctx).timers@,
            final(ctx).rng == old(ctx).rng,
            if cp_read_due(*old(self), old(ctx).now) {
                &&& *final(self) == (CpRegister { pending_read: true, probe_seq: (old(self).probe_seq + 1) as u64, ..*old(self) })
                &&& final(ctx).outbox@ == old(ctx).outbox@.push(
                    env_of(old(self).id, old(self).peer, old(ctx).now, Msg::Write { seq: (old(self).probe_seq + 1) as u64, value: old(self).local }),
                )
            } else {
                &&& *final(self) == *old(self)
                &&& final(ctx).outbox@ == old(ctx).outbox@
            },
    {
        self.try_issue_read(ctx);
    }

    /// A write raises the local value to the larger of the two and is
    /// acknowledged; an acknowledgement completes a pending read with
    /// the local value.
    pub fn on_receive(&mut self, env: Envelope<Msg>, ctx: &mut StepCtx<Msg>)
        ensures
            final(ctx).now == old(ctx).now,
            final(ctx).timers@ == old(ctx).timers@,
            final(ctx).rng == old(ctx).rng,
            match env.msg {
                Msg::Write { seq, value } => {
                    &&& *final(self) == (CpRegister {
                        local: if value > old(self).local { value } else { old(self).local },
                        seq: if seq > old(self).seq { seq } else { old(self).seq },
                        ..*old(self)
                    })
                    &&& final(ctx).outbox@ == old(ctx).outbox@.push(env_of(old(self).id, env.from, old(ctx).now, Msg::Ack { seq }))
                },
                Msg::Ack { .. } => {
                    &&& final(ctx).outbox@ == old(ctx).outbox@
                    &&& *final(self) == if old(self).pending_read {
                        CpRegister { pending_read: false, last_read: Some(old(self).local), ..*old(self) }
                    } else {
                        *old(self)
                    }
                },
            },
    {
        match env.msg {
            Msg::Write { seq, value } => {
                if value > self.local {
                    self.local = value;
                }
                if seq > self.seq {
                    self.seq = seq;
                }
                ctx.send(self.id, env.from, Msg::Ack { seq });
            },
            Msg::Ack { .. } => {
                if self.pending_read {
                    self.pending_read = false;
                    self.last_read = Some(self.local);
                }
            },
        }
    }
}

/// Drops every message sent in `[partition_at, heal_at)`; delivers the
/// others one tick later.
pub struct OnePartitionAdversary {
    /// When the partition starts.
    pub partition_at: Time,
    /// When the partition heals.
    pub heal_at: Time,
}

impl<M> Adversary<M> for OnePartitionAdversary {
    open spec fn admits(&self, now: Time) -> bool {
        now < Time::MAX
    }

    /// A message sent during the partition is lost; any other arrives
    /// one tick later.
    open spec fn outcome(&self, env: Envelope<M>, now: Time, post: Self, out: Seq<(Time, Envelope<M>)>) -> bool {
        &&& post == *self
        &&& if now >= self.partition_at && now < self.heal_at {
            out.len() == 0
        } else {
            out == seq![((now + 1) as Time, env)]
        }
    }

    fn intercept(&mut self, env: Envelope<M>, now: Time, rng: &mut SimRng) -> (r: Vec<(Time, Envelope<M>)>)
        ensures
            *final(rng) == *old(rng),
    {
        if now >= self.partition_at && now < self.heal_at {
            return Vec::new();
        }
        let mut r = Vec::new();
        r.push((now + 1, env));
        r
    }
}

} // verus!
