//! The three timing models of Dwork, Lynch and Stockmeyer as network
//! adversaries: synchronous, asynchronous and partially synchronous
//! (global stabilisation time known).

use crate::net::{Adversary, Envelope, SimRng, Time};
use vstd::prelude::*;

verus! {

/// Synchronous network: every message is delivered exactly `delay`
/// ticks after sending.
pub struct SynchronousAdversary {
    /// Fixed delivery delay.
    pub delay: Time,
}

impl SynchronousAdversary {
    /// A synchronous adversary with delay `delay`.
    pub fn new(delay: Time) -> (s: Self)
        ensures
            s.delay == delay,
    {
        SynchronousAdversary { delay }
    }
}

impl<M> Adversary<M> for SynchronousAdversary {
    open spec fn admits(&self, now: Time) -> bool {
        now + self.delay <= Time::MAX
    }

    /// The message is delivered unchanged `delay` ticks later.
    open spec fn outcome(&self, env: Envelope<M>, now: Time, post: Self, out: Seq<(Time, Envelope<M>)>) -> bool {
        &&& post == *self
        &&& out == seq![((now + self.delay) as Time, env)]
    }

    fn intercept(&mut self, env: Envelope<M>, now: Time, rng: &mut SimRng) -> (r: Vec<
        (Time, Envelope<M>),
    >)
        ensures
            *final(rng) == *old(rng),
    {
        let mut r = Vec::new();
        r.push((now + self.delay, env));
        r
    }
}

/// The largest delay an asynchronous draw may take when the bound is
/// `max`: a bound of zero counts as one.
pub open spec fn effective_bound(max: Time) -> Time {
    if max < 1 { 1 } else { max }
}

/// Asynchronous network: every message is delivered after a random
/// delay in `[1, max_delay]` (a zero bound counts as one).
pub struct AsynchronousAdversary {
    /// Upper bound on the per-message delay; the lower bound is 1.
    pub max_delay: Time,
}

impl AsynchronousAdversary {
    /// An asynchronous adversary with delay bound `max_delay`.
    pub fn new(max_delay: Time) -> (s: Self)
        ensures
            s.max_delay == max_delay,
    {
        AsynchronousAdversary { max_delay }
    }
}

impl<M> Adversary<M> for AsynchronousAdversary {
    open spec fn admits(&self, now: Time) -> bool {
        now + effective_bound(self.max_delay) <= Time::MAX
    }

    /// The message is delivered unchanged once, between 1 and the
    /// (effective) bound ticks later.
    open spec fn outcome(&self, env: Envelope<M>, now: Time, post: Self, out: Seq<(Time, Envelope<M>)>) -> bool {
        &&& post == *self
        &&& out.len() == 1
        &&& out[0].1 == env
        &&& now + 1 <= out[0].0 <= now + effective_bound(self.max_delay)
    }

    fn intercept(&mut self, env: Envelope<M>, now: Time, rng: &mut SimRng) -> (r: Vec<
        (Time, Envelope<M>),
    >) {
        let bound = if self.max_delay < 1 { 1 } else { self.max_delay };
        let delay = rng.range_inclusive(1, bound);
        let mut r = Vec::new();
        r.push((now + delay, env));
        r
    }
}

/// Partially synchronous network: before `gst` a message takes a random
/// delay in `[1, async_max]` (a zero bound counts as one); from `gst`
/// on it takes exactly `sync_delay`.
pub struct PartiallySynchronousAdversary {
    /// Global stabilisation time.
    pub gst: Time,
    /// Delivery delay from `gst` on.
    pub sync_delay: Time,
    /// Delay bound before `gst`.
    pub async_max: Time,
}

impl PartiallySynchronousAdversary {
    /// A partially synchronous adversary.
    pub fn new(gst: Time, sync_delay: Time, async_max: Time) -> (s: Self)
        ensures
            s.gst == gst,
            s.sync_delay == sync_delay,
            s.async_max == async_max,
    {
        PartiallySynchronousAdversary { gst, sync_delay, async_max }
    }
}

impl<M> Adversary<M> for PartiallySynchronousAdversary {
    open spec fn admits(&self, now: Time) -> bool {
        if now < self.gst {
            now + effective_bound(self.async_max) <= Time::MAX
        } else {
            now + self.sync_delay <= Time::MAX
        }
    }

    /// The message is delivered unchanged once: before `gst` between 1
    /// and the (effective) asynchronous bound ticks later, from `gst` on
    /// exactly `sync_delay` ticks later.
    open spec fn outcome(&self, env: Envelope<M>, now: Time, post: Self, out: Seq<(Time, Envelope<M>)>) -> bool {
        &&& post == *self
        &&& out.len() == 1
        &&& out[0].1 == env
        &&& now < self.gst ==> now + 1 <= out[0].0 <= now + effective_bound(self.async_max)
        &&& now >= self.gst ==> out[0].0 == now + self.sync_delay
    }

    fn intercept(&mut self, env: Envelope<M>, now: Time, rng: &mut SimRng) -> (r: Vec<
        (Time, Envelope<M>),
    >) {
        let delay = if now < self.gst {
            let bound = if self.async_max < 1 { 1 } else { self.async_max };
            rng.range_inclusive(1, bound)
        } else {
            self.sync_delay
        };
        let mut r = Vec::new();
        r.push((now + delay, env));
        r
    }
}

} // verus!
