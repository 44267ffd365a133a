//! Message counting for the Dolev–Reischuk lower bound: an adversary
//! that counts every message it sees and hands it on unchanged.

use crate::net::{Adversary, Envelope, SimRng, Time};
use vstd::prelude::*;

verus! {

/// Counts the messages it intercepts, then lets `inner` decide their
/// fate.
pub struct CountingAdversary<A> {
    /// Adversary that decides delivery.
    pub inner: A,
    /// Messages seen so far.
    pub count: u64,
}

impl<A> CountingAdversary<A> {
    /// A counter at zero on top of `inner`.
    pub fn new(inner: A) -> (s: Self)
        ensures
            s.inner == inner,
            s.count == 0,
    {
        CountingAdversary { inner, count: 0 }
    }
}

impl<A: Adversary<M>, M> Adversary<M> for CountingAdversary<A> {
    open spec fn admits(&self, now: Time) -> bool {
        self.count < u64::MAX && self.inner.admits(now)
    }

    /// The count goes up by one and `inner` decides the message's fate.
    open spec fn outcome(&self, env: Envelope<M>, now: Time, post: Self, out: Seq<(Time, Envelope<M>)>) -> bool {
        &&& post.count == self.count + 1
        &&& self.inner.outcome(env, now, post.inner, out)
    }

    fn intercept(&mut self, env: Envelope<M>, now: Time, rng: &mut SimRng) -> (r: Vec<
        (Time, Envelope<M>),
    >) {
        self.count = self.count + 1;
        self.inner.intercept(env, now, rng)
    }
}

} // verus!
