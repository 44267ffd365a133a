//! Bracha's asynchronous reliable broadcast. Each node echoes an
//! initial broadcast once, sends `Ready` once it has `n - f` echoes or
//! `f + 1` readies for the same content, and delivers on `2f + 1`
//! readies.

use vstd::prelude::*;
use crate::collections::{Key, KeySet, Tally};
use crate::net::{sends_to_all, Envelope, NodeId, StepCtx};

verus! {

/// Wire message.
#[derive(Clone, Copy, Debug)]
pub enum Msg<M> {
    /// Initial broadcast from the sender.
    Init {
        /// The broadcaster.
        sender: NodeId,
        /// The content.
        content: M,
    },
    /// Echo of an `Init`.
    Echo {
        /// The broadcaster.
        sender: NodeId,
        /// Echoed content.
        content: M,
    },
    /// Ready to deliver this content.
    Ready {
        /// The broadcaster.
        sender: NodeId,
        /// Content to deliver.
        content: M,
    },
}

/// A Bracha reliable-broadcast node.
pub struct BrachaNode<M> {
    /// This node's identity.
    pub id: NodeId,
    /// All nodes, this one included.
    pub everyone: Vec<NodeId>,
    /// `n - f`: echoes needed to send `Ready`.
    pub echo_threshold: usize,
    /// `f + 1`: readies that make a node ready too.
    pub ready_amp_threshold: usize,
    /// `2f + 1`: readies needed to deliver.
    pub deliver_threshold: usize,
    /// Initial value to broadcast (the broadcaster only).
    pub initial: Option<M>,
    /// Whether the initial broadcast has been sent.
    pub initial_done: bool,
    /// Echo senders per `(sender, content)`.
    pub echo_set: Tally<(NodeId, M)>,
    /// Ready senders per `(sender, content)`.
    pub ready_set: Tally<(NodeId, M)>,
    /// Pairs this node has echoed.
    pub echoed: KeySet<(NodeId, M)>,
    /// Pairs this node has sent `Ready` for.
    pub readied: KeySet<(NodeId, M)>,
    /// Delivered `(sender, content)` pairs.
    pub delivered: KeySet<(NodeId, M)>,
}

impl<M: Key + Copy> BrachaNode<M> {
    /// Build a Bracha RB node for `n` nodes tolerating `f` faults.
    pub fn new(id: NodeId, everyone: Vec<NodeId>, n: usize, f: usize, initial: Option<M>) -> (s: Self)
        requires
            f <= n,
            2 * f + 1 <= usize::MAX,
        ensures
            s.id == id,
            s.everyone@ == everyone@,
            s.echo_threshold == n - f,
            s.ready_amp_threshold == f + 1,
            s.deliver_threshold == 2 * f + 1,
            s.initial == initial,
            !s.initial_done,
            forall|k: (NodeId, M)| #[trigger] s.echo_set.voters(k) == Set::<NodeId>::empty(),
            forall|k: (NodeId, M)| #[trigger] s.ready_set.voters(k) == Set::<NodeId>::empty(),
            s.echoed@ == Set::<(NodeId, M)>::empty(),
            s.readied@ == Set::<(NodeId, M)>::empty(),
            s.delivered@ == Set::<(NodeId, M)>::empty(),
    {
        BrachaNode {
            id,
            everyone,
            echo_threshold: n - f,
            ready_amp_threshold: f + 1,
            deliver_threshold: 2 * f + 1,
            initial,
            initial_done: false,
            echo_set: Tally::new(),
            ready_set: Tally::new(),
            echoed: KeySet::new(),
            readied: KeySet::new(),
            delivered: KeySet::new(),
        }
    }

    /// First tick: the broadcaster sends `Init` to everyone.
    pub fn on_tick(&mut self, ctx: &mut StepCtx<Msg<M>>)
        ensures
            final(ctx).now == old(ctx).now,
            final(ctx).timers@ == old(ctx).timers@,
            final(ctx).rng == old(ctx).rng,
            if old(self).initial_done {
                &&& *final(self) == *old(self)
                &&& final(ctx).outbox@ == old(ctx).outbox@
            } else {
                &&& *final(self) == (BrachaNode { initial_done: true, ..*old(self) })
                &&& final(ctx).outbox@ == match old(self).initial {
                    Some(x) => old(ctx).outbox@ + sends_to_all(
                        old(self).id,
                        old(self).everyone@,
                        old(ctx).now,
                        Msg::Init { sender: old(self).id, content: x },
                    ),
                    None => old(ctx).outbox@,
                }
            },
    {
        if self.initial_done {
            return;
        }
        self.initial_done = true;
        match self.initial {
            Some(x) => {
                ctx.broadcast(self.id, &self.everyone, Msg::Init { sender: self.id, content: x });
            },
            None => {},
        }
    }

    /// An `Init` for `(sender, content)`: echo it to everyone the first
    /// time.
    fn handle_init(&mut self, sender: NodeId, content: M, ctx: &mut StepCtx<Msg<M>>)
        ensures
            final(ctx).now == old(ctx).now,
            final(ctx).timers@ == old(ctx).timers@,
            final(ctx).rng == old(ctx).rng,
            ({
                let key = (sender, content);
                &&& final(self).echoed@ == old(self).echoed@.insert(key)
                &&& *final(self) == (BrachaNode { echoed: final(self).echoed, ..*old(self) })
                &&& final(ctx).outbox@ == if !old(self).echoed@.contains(key) {
                    old(ctx).outbox@ + sends_to_all(old(self).id, old(self).everyone@, old(ctx).now, Msg::Echo { sender, content })
                } else {
                    old(ctx).outbox@
                }
            }),
    {
        if self.echoed.insert((sender, content)) {
            ctx.broadcast(self.id, &self.everyone, Msg::Echo { sender, content });
        }
    }

    /// An `Echo` of `(sender, content)` from `from`: count it; with
    /// `n - f` echoes send `Ready` to everyone unless already sent.
    fn handle_echo(&mut self, from: NodeId, sender: NodeId, content: M, ctx: &mut StepCtx<Msg<M>>)
        ensures
            final(ctx).now == old(ctx).now,
            final(ctx).timers@ == old(ctx).timers@,
            final(ctx).rng == old(ctx).rng,
            ({
                let key = (sender, content);
                let voters = old(self).echo_set.voters(key).insert(from);
                let ready = voters.len() >= old(self).echo_threshold && !old(self).readied@.contains(key);
                &&& final(self).echo_set.voters(key) == voters
                &&& forall|k: (NodeId, M)| k != key ==> #[trigger] final(self).echo_set.voters(k) == old(self).echo_set.voters(k)
                &&& final(self).readied@ == if voters.len() >= old(self).echo_threshold {
                    old(self).readied@.insert(key)
                } else {
                    old(self).readied@
                }
                &&& *final(self) == (BrachaNode { echo_set: final(self).echo_set, readied: final(self).readied, ..*old(self) })
                &&& final(ctx).outbox@ == if ready {
                    old(ctx).outbox@ + sends_to_all(old(self).id, old(self).everyone@, old(ctx).now, Msg::Ready { sender, content })
                } else {
                    old(ctx).outbox@
                }
            }),
    {
        let count = self.echo_set.add((sender, content), from);
        if count >= self.echo_threshold && self.readied.insert((sender, content)) {
            ctx.broadcast(self.id, &self.everyone, Msg::Ready { sender, content });
        }
    }

    /// A `Ready` for `(sender, content)` from `from`: count it; with
    /// `f + 1` readies send `Ready` unless already sent; with `2f + 1`
    /// deliver.
    fn handle_ready(&mut self, from: NodeId, sender: NodeId, content: M, ctx: &mut StepCtx<Msg<M>>)
        ensures
            final(ctx).now == old(ctx).now,
            final(ctx).timers@ == old(ctx).timers@,
            final(ctx).rng == old(ctx).rng,
            ({
                let key = (sender, content);
                let voters = old(self).ready_set.voters(key).insert(from);
                let ready = voters.len() >= old(self).ready_amp_threshold && !old(self).readied@.contains(key);
                &&& final(self).ready_set.voters(key) == voters
                &&& forall|k: (NodeId, M)| k != key ==> #[trigger] final(self).ready_set.voters(k) == old(self).ready_set.voters(k)
                &&& final(self).readied@ == if voters.len() >= old(self).ready_amp_threshold {
                    old(self).readied@.insert(key)
                } else {
                    old(self).readied@
                }
                &&& final(self).delivered@ == if voters.len() >= old(self).deliver_threshold {
                    old(self).delivered@.insert(key)
                } else {
                    old(self).delivered@
                }
                &&& *final(self) == (BrachaNode {
                    ready_set: final(self).ready_set,
                    readied: final(self).readied,
                    delivered: final(self).delivered,
                    ..*old(self)
                })
                &&& final(ctx).outbox@ == if ready {
                    old(ctx).outbox@ + sends_to_all(old(self).id, old(self).everyone@, old(ctx).now, Msg::Ready { sender, content })
                } else {
                    old(ctx).outbox@
                }
            }),
    {
        let count = self.ready_set.add((sender, content), from);
        if count >= self.ready_amp_threshold && self.readied.insert((sender, content)) {
            ctx.broadcast(self.id, &self.everyone, Msg::Ready { sender, content });
        }
        if count >= self.deliver_threshold {
            self.delivered.insert((sender, content));
        }
    }

    /// Handle one delivered message:
    /// - `Init`: echo it to everyone the first time;
    /// - `Echo`: count its sender; with `n - f` echoes, send `Ready` to
    ///   everyone unless already sent;
    /// - `Ready`: count its sender; with `f + 1` readies send `Ready`
    ///   unless already sent; with `2f + 1` deliver.
    pub fn on_receive(&mut self, env: Envelope<Msg<M>>, ctx: &mut StepCtx<Msg<M>>)
        ensures
            old(self).delivered@.subset_of(final(self).delivered@),
            old(self).readied@.subset_of(final(self).readied@),
            old(self).echoed@.subset_of(final(self).echoed@),
            final(ctx).now == old(ctx).now,
            final(ctx).timers@ == old(ctx).timers@,
            final(ctx).rng == old(ctx).rng,
            match env.msg {
                Msg::Init { sender, content } => {
                    let key = (sender, content);
                    &&& final(self).echoed@ == old(self).echoed@.insert(key)
                    &&& *final(self) == (BrachaNode { echoed: final(self).echoed, ..*old(self) })
                    &&& final(ctx).outbox@ == if !old(self).echoed@.contains(key) {
                        old(ctx).outbox@ + sends_to_all(old(self).id, old(self).everyone@, old(ctx).now, Msg::Echo { sender, content })
                    } else {
                        old(ctx).outbox@
                    }
                },
                Msg::Echo { sender, content } => {
                    let key = (sender, content);
                    let voters = old(self).echo_set.voters(key).insert(env.from);
                    let ready = voters.len() >= old(self).echo_threshold && !old(self).readied@.contains(key);
                    &&& final(self).echo_set.voters(key) == voters
                    &&& forall|k: (NodeId, M)| k != key ==> #[trigger] final(self).echo_set.voters(k) == old(self).echo_set.voters(k)
                    &&& final(self).readied@ == if voters.len() >= old(self).echo_threshold {
                        old(self).readied@.insert(key)
                    } else {
                        old(self).readied@
                    }
                    &&& *final(self) == (BrachaNode { echo_set: final(self).echo_set, readied: final(self).readied, ..*old(self) })
                    &&& final(ctx).outbox@ == if ready {
                        old(ctx).outbox@ + sends_to_all(old(self).id, old(self).everyone@, old(ctx).now, Msg::Ready { sender, content })
                    } else {
                        old(ctx).outbox@
                    }
                },
                Msg::Ready { sender, content } => {
                    let key = (sender, content);
                    let voters = old(self).ready_set.voters(key).insert(env.from);
                    let ready = voters.len() >= old(self).ready_amp_threshold && !old(self).readied@.contains(key);
                    &&& final(self).ready_set.voters(key) == voters
                    &&& forall|k: (NodeId, M)| k != key ==> #[trigger] final(self).ready_set.voters(k) == old(self).ready_set.voters(k)
                    &&& final(self).readied@ == if voters.len() >= old(self).ready_amp_threshold {
                        old(self).readied@.insert(key)
                    } else {
                        old(self).readied@
                    }
                    &&& final(self).delivered@ == if voters.len() >= old(self).deliver_threshold {
                        old(self).delivered@.insert(key)
                    } else {
                        old(self).delivered@
                    }
                    &&& *final(self) == (BrachaNode {
                        ready_set: final(self).ready_set,
                        readied: final(self).readied,
                        delivered: final(self).delivered,
                        ..*old(self)
                    })
                    &&& final(ctx).outbox@ == if ready {
                        old(ctx).outbox@ + sends_to_all(old(self).id, old(self).everyone@, old(ctx).now, Msg::Ready { sender, content })
                    } else {
                        old(ctx).outbox@
                    }
                },
            },
    {
        match env.msg {
            Msg::Init { sender, content } => {
                self.handle_init(sender, content, ctx);
            },
            Msg::Echo { sender, content } => {
                self.handle_echo(env.from, sender, content, ctx);
            },
            Msg::Ready { sender, content } => {
                self.handle_ready(env.from, sender, content, ctx);
            },
        }
    }
}

} // verus!
