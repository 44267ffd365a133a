//! Failure-mode adversaries layered over a timing adversary: crash-stop
//! senders and equivocating (Byzantine) senders.

use crate::collections::{KeyMap, KeySet};
use crate::net::{Adversary, Envelope, NodeId, SimRng, Time};
use vstd::prelude::*;

verus! {

/// Whether a sender with crash times `crash_at` has crashed by `now`.
pub open spec fn has_crashed(crash_at: Map<NodeId, Time>, node: NodeId, now: Time) -> bool {
    crash_at.contains_key(node) && now >= crash_at[node]
}

/// Crash-stop adversary: a node listed in `crash_at` loses every message
/// it sends at or after its crash time; the other messages go to
/// `inner`, which decides their timing.
pub struct CrashStopAdversary<A> {
    /// When each node crashes; nodes not listed never crash.
    pub crash_at: KeyMap<NodeId, Time>,
    /// Adversary applied to the surviving messages.
    pub inner: A,
}

impl<A> CrashStopAdversary<A> {
    /// A crash-stop adversary on top of `inner`.
    pub fn new(crash_at: KeyMap<NodeId, Time>, inner: A) -> (s: Self)
        ensures
            s.crash_at@ == crash_at@,
            s.inner == inner,
    {
        CrashStopAdversary { crash_at, inner }
    }
}

impl<A: Adversary<M>, M> Adversary<M> for CrashStopAdversary<A> {
    open spec fn admits(&self, now: Time) -> bool {
        self.inner.admits(now)
    }

    /// A message from a crashed sender is lost and nothing changes;
    /// any other goes to `inner`.
    open spec fn outcome(&self, env: Envelope<M>, now: Time, post: Self, out: Seq<(Time, Envelope<M>)>) -> bool {
        &&& post.crash_at == self.crash_at
        &&& if has_crashed(self.crash_at@, env.from, now) {
            out.len() == 0 && post.inner == self.inner
        } else {
            self.inner.outcome(env, now, post.inner, out)
        }
    }

    fn intercept(&mut self, env: Envelope<M>, now: Time, rng: &mut SimRng) -> (r: Vec<
        (Time, Envelope<M>),
    >) {
        match self.crash_at.get(&env.from) {
            Some(t_c) => {
                if now >= *t_c {
                    return Vec::new();
                }
            },
            None => {},
        }
        self.inner.intercept(env, now, rng)
    }
}

/// Equivocating adversary: a message from a node of `byzantine` to a
/// node of `swap_to` has its body replaced by `swap_fn` of the
/// envelope; every message then goes to `inner`.
#[verifier::reject_recursive_types(M)]
pub struct EquivocatingAdversary<A, M, F: Fn(&Envelope<M>) -> M> {
    /// Byzantine senders.
    pub byzantine: KeySet<NodeId>,
    /// Recipients whose messages are altered.
    pub swap_to: KeySet<NodeId>,
    /// Builds the altered body.
    pub swap_fn: F,
    /// Adversary applied to every message afterwards.
    pub inner: A,
    /// Ties the message type to the adversary.
    pub marker: std::marker::PhantomData<M>,
}

/// Whether a message from `from` to `to` is altered.
pub open spec fn equivocates(byzantine: Set<NodeId>, swap_to: Set<NodeId>, from: NodeId, to: NodeId) -> bool {
    byzantine.contains(from) && swap_to.contains(to)
}

impl<A, M, F: Fn(&Envelope<M>) -> M> EquivocatingAdversary<A, M, F> {
    /// An equivocating adversary.
    pub fn new(byzantine: KeySet<NodeId>, swap_to: KeySet<NodeId>, swap_fn: F, inner: A) -> (s:
        Self)
        ensures
            s.byzantine@ == byzantine@,
            s.swap_to@ == swap_to@,
            s.swap_fn == swap_fn,
            s.inner == inner,
    {
        EquivocatingAdversary { byzantine, swap_to, swap_fn, inner, marker: std::marker::PhantomData }
    }
}

impl<A: Adversary<M>, M, F: Fn(&Envelope<M>) -> M> Adversary<M> for EquivocatingAdversary<A, M, F> {
    open spec fn admits(&self, now: Time) -> bool {
        &&& self.inner.admits(now)
        &&& forall|e: &Envelope<M>| #[trigger] self.swap_fn.requires((e,))
    }

    /// A message from a Byzantine sender to a node of `swap_to` goes to
    /// `inner` with its body replaced by a result of `swap_fn` on the
    /// envelope; any other goes to `inner` unchanged.
    open spec fn outcome(&self, env: Envelope<M>, now: Time, post: Self, out: Seq<(Time, Envelope<M>)>) -> bool {
        &&& post.byzantine == self.byzantine
        &&& post.swap_to == self.swap_to
        &&& post.swap_fn == self.swap_fn
        &&& if equivocates(self.byzantine@, self.swap_to@, env.from, env.to) {
            exists|m: M| #[trigger] call_ensures(self.swap_fn, (&env,), m) && self.inner.outcome(
                Envelope { msg: m, ..env },
                now,
                post.inner,
                out,
            )
        } else {
            self.inner.outcome(env, now, post.inner, out)
        }
    }

    fn intercept(&mut self, env: Envelope<M>, now: Time, rng: &mut SimRng) -> (r: Vec<
        (Time, Envelope<M>),
    >) {
        if self.byzantine.contains(&env.from) && self.swap_to.contains(&env.to) {
            let new_msg = (self.swap_fn)(&env);
            let mutated = Envelope { from: env.from, to: env.to, sent_at: env.sent_at, msg: new_msg };
            return self.inner.intercept(mutated, now, rng);
        }
        self.inner.intercept(env, now, rng)
    }
}

} // verus!
