//! Chain replication: the head applies each write and forwards it down
//! the chain; every replica applies what it receives and forwards it to
//! its successor.

use std::collections::BTreeMap;
use vstd::prelude::*;
use crate::net::{env_of, Envelope, NodeId, StepCtx};

verus! {

/// Wire message.
#[derive(Clone, Copy, Debug)]
pub enum Msg {
    /// Forward an update down the chain.
    Update {
        /// Key.
        k: u32,
        /// Value.
        v: u32,
    },
    /// Tail acknowledgement.
    Ack {
        /// Key.
        k: u32,
    },
}

/// Chain replica.
pub struct ChainNode {
    /// This replica's identity.
    pub id: NodeId,
    /// This replica's position in the chain (0 = head).
    pub index: usize,
    /// Chain length.
    pub n: usize,
    /// Successor in the chain (none for the tail).
    pub next: Option<NodeId>,
    /// Local store.
    pub store: BTreeMap<u32, u32>,
    /// Initial writes (head only).
    pub initial: Vec<(u32, u32)>,
    /// Whether the head has started.
    pub started: bool,
}

/// `store` after applying `writes` in order.
pub open spec fn apply_writes(store: Map<u32, u32>, writes: Seq<(u32, u32)>) -> Map<u32, u32>
    decreases writes.len(),
{
    if writes.len() == 0 {
        store
    } else {
        apply_writes(store, writes.drop_last()).insert(writes.last().0, writes.last().1)
    }
}

/// The updates forwarded to `next` for `writes`, in order.
pub open spec fn forwards(from: NodeId, next: Option<NodeId>, now: u64, writes: Seq<(u32, u32)>) -> Seq<Envelope<Msg>> {
    match next {
        Some(nx) => Seq::new(writes.len(), |j: int| env_of(from, nx, now, Msg::Update { k: writes[j].0, v: writes[j].1 })),
        None => Seq::empty(),
    }
}

impl ChainNode {
    /// Build a chain replica.
    pub fn new(id: NodeId, index: usize, n: usize, next: Option<NodeId>, initial: Vec<(u32, u32)>) -> (s: Self)
        ensures
            s.id == id,
            s.index == index,
            s.n == n,
            s.next == next,
            s.store@ == Map::<u32, u32>::empty(),
            s.initial@ == initial@,
            !s.started,
    {
        ChainNode { id, index, n, next, store: BTreeMap::new(), initial, started: false }
    }

    /// First tick: the head applies each initial write in order and
    /// forwards it to its successor.
    pub fn on_tick(&mut self, ctx: &mut StepCtx<Msg>)
        ensures
            final(ctx).now == old(ctx).now,
            final(ctx).timers@ == old(ctx).timers@,
            final(ctx).rng == old(ctx).rng,
            if old(self).index == 0 && !old(self).started {
                &&& final(self).initial@.len() == 0
                &&& final(self).store@ == apply_writes(old(self).store@, old(self).initial@)
                &&& *final(self) == (ChainNode { started: true, initial: final(self).initial, store: final(self).store, ..*old(self) })
                &&& final(ctx).outbox@ == old(ctx).outbox@ + forwards(old(self).id, old(self).next, old(ctx).now, old(self).initial@)
            } else {
                &&& *final(self) == *old(self)
                &&& final(ctx).outbox@ == old(ctx).outbox@
            },
    {
        if self.index != 0 || self.started {
            return;
        }
        self.started = true;
        let mut initial = Vec::new();
        std::mem::swap(&mut initial, &mut self.initial);
        let ghost s0 = *self;
        let ghost out0 = ctx.outbox@;
        let mut j: usize = 0;
        while j < initial.len()
            invariant
                j <= initial@.len(),
                initial@ == old(self).initial@,
                *self == (ChainNode { store: self.store, ..s0 }),
                s0 == (ChainNode { started: true, initial: s0.initial, ..*old(self) }),
                s0.initial@.len() == 0,
                self.store@ == apply_writes(old(self).store@, initial@.take(j as int)),
                out0 == old(ctx).outbox@,
                ctx.now == old(ctx).now,
                ctx.timers@ == old(ctx).timers@,
                ctx.rng == old(ctx).rng,
                ctx.outbox@ == out0 + forwards(self.id, self.next, ctx.now, initial@.take(j as int)),
            decreases initial@.len() - j,
        {
            let (k, v) = initial[j];
            self.store.insert(k, v);
            match self.next {
                Some(next) => {
                    ctx.send(self.id, next, Msg::Update { k, v });
                },
                None => {},
            }
            assert(initial@.take(j + 1).drop_last() =~= initial@.take(j as int));
            assert(forwards(self.id, self.next, ctx.now, initial@.take(j + 1)) =~= forwards(
                self.id,
                self.next,
                ctx.now,
                initial@.take(j as int),
            ) + match self.next {
                Some(nx) => seq![env_of(self.id, nx, ctx.now, Msg::Update { k, v })],
                None => Seq::empty(),
            });
            j = j + 1;
        }
        assert(initial@.take(j as int) =~= initial@);
    }

    /// Handle one delivered message: an update is applied and forwarded
    /// to the successor; acknowledgements change nothing.
    pub fn on_receive(&mut self, env: Envelope<Msg>, ctx: &mut StepCtx<Msg>)
        ensures
            final(ctx).now == old(ctx).now,
            final(ctx).timers@ == old(ctx).timers@,
            final(ctx).rng == old(ctx).rng,
            match env.msg {
                Msg::Update { k, v } => {
                    &&& final(self).store@ == old(self).store@.insert(k, v)
                    &&& *final(self) == (ChainNode { store: final(self).store, ..*old(self) })
                    &&& final(ctx).outbox@ == match old(self).next {
                        Some(nx) => old(ctx).outbox@.push(env_of(old(self).id, nx, old(ctx).now, Msg::Update { k, v })),
                        None => old(ctx).outbox@,
                    }
                },
                Msg::Ack { .. } => {
                    &&& *final(self) == *old(self)
                    &&& final(ctx).outbox@ == old(ctx).outbox@
                },
            },
    {
        match env.msg {
            Msg::Update { k, v } => {
                self.store.insert(k, v);
                match self.next {
                    Some(next) => {
                        ctx.send(self.id, next, Msg::Update { k, v });
                    },
                    None => {},
                }
            },
            Msg::Ack { .. } => {},
        }
    }
}

} // verus!
