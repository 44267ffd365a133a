//! Network vocabulary shared by every protocol: node identities,
//! logical time, envelopes, the per-step context in which a handler
//! records what it sends, the simulation RNG, and network adversaries.

use rand::RngExt;
use rand::SeedableRng;
use vstd::prelude::*;

verus! {

/// Logical simulation time, in ticks.
pub type Time = u64;

/// Identity of a simulated process.
#[derive(Clone, Copy, Debug, PartialEq, Eq, Structural, Hash, PartialOrd, Ord)]
pub struct NodeId(pub u32);

/// A message in flight, with its endpoints and send time.
#[derive(Clone, Debug)]
pub struct Envelope<M> {
    /// Sender.
    pub from: NodeId,
    /// Recipient.
    pub to: NodeId,
    /// Time at which the message was sent.
    pub sent_at: Time,
    /// Payload.
    pub msg: M,
}

#[verifier::external_type_specification]
#[verifier::external_body]
pub struct ExStdRng(rand::rngs::StdRng);

/// The simulation's deterministic random-number generator.
pub struct SimRng {
    rng: rand::rngs::StdRng,
}

/// Seeds a `StdRng` from a `u64` (`SeedableRng::seed_from_u64`).
/// Nothing is stated of the generator, which is opaque.
#[verifier::external_body]
fn std_rng_from_seed(seed: u64) -> rand::rngs::StdRng {
    rand::rngs::StdRng::seed_from_u64(seed)
}

/// Draws a value from the inclusive range `lo..=hi`
/// (`RngExt::random_range`). The contract claims only that the value
/// lies in the range, as the crate documents; `random_range` panics on
/// an empty range, which `requires` rules out.
#[verifier::external_body]
fn std_rng_range_inclusive(rng: &mut rand::rngs::StdRng, lo: u64, hi: u64) -> (r: u64)
    requires
        lo <= hi,
    ensures
        lo <= r <= hi,
{
    rng.random_range(lo..=hi)
}

/// Draws a uniformly random `bool` (`RngExt::random::<bool>`). Nothing
/// is claimed of the value.
#[verifier::external_body]
fn std_rng_bool(rng: &mut rand::rngs::StdRng) -> bool {
    rng.random::<bool>()
}

impl SimRng {
    /// The state of the underlying generator.
    pub closed spec fn generator(&self) -> rand::rngs::StdRng {
        self.rng
    }

    /// A generator seeded with `seed`.
    pub fn new(seed: u64) -> SimRng {
        SimRng { rng: std_rng_from_seed(seed) }
    }

    /// A value drawn from `lo..=hi`.
    pub fn range_inclusive(&mut self, lo: u64, hi: u64) -> (r: u64)
        requires
            lo <= hi,
        ensures
            lo <= r <= hi,
    {
        std_rng_range_inclusive(&mut self.rng, lo, hi)
    }

    /// A random bit.
    pub fn coin(&mut self) -> bool {
        std_rng_bool(&mut self.rng)
    }

    /// The underlying generator, for draws of other kinds.
    pub fn inner(&mut self) -> (r: &mut rand::rngs::StdRng)
        ensures
            *r == old(self).generator(),
            final(self).generator() == *final(r),
    {
        &mut self.rng
    }
}

/// What one handler invocation produces: the messages it sends and the
/// timers it arms, in order, together with the current time and the
/// RNG it may draw from.
pub struct StepCtx<M> {
    /// Current time.
    pub now: Time,
    /// Messages sent so far during this step, in order.
    pub outbox: Vec<Envelope<M>>,
    /// Timers armed so far: `(delay, timer id)`.
    pub timers: Vec<(Time, u64)>,
    /// Randomness available to the handler.
    pub rng: SimRng,
}

/// The envelope that a send of `msg` from `from` to `to` at time `now`
/// puts on the wire.
pub open spec fn env_of<M>(from: NodeId, to: NodeId, now: Time, msg: M) -> Envelope<M> {
    Envelope { from, to, sent_at: now, msg }
}

/// The envelopes of sending `msg` from `from` to each of `peers`, in
/// order.
pub open spec fn sends_to_all<M>(from: NodeId, peers: Seq<NodeId>, now: Time, msg: M) -> Seq<
    Envelope<M>,
> {
    Seq::new(peers.len(), |i: int| env_of(from, peers[i], now, msg))
}

impl<M> StepCtx<M> {
    /// A fresh context at time `now` that draws from `rng`.
    pub fn new(now: Time, rng: SimRng) -> (c: StepCtx<M>)
        ensures
            c.now == now,
            c.rng == rng,
            c.outbox@ == Seq::<Envelope<M>>::empty(),
            c.timers@ == Seq::<(Time, u64)>::empty(),
    {
        StepCtx { now, outbox: Vec::new(), timers: Vec::new(), rng }
    }

    /// Send `msg` from `from` to `to`.
    pub fn send(&mut self, from: NodeId, to: NodeId, msg: M)
        ensures
            final(self).now == old(self).now,
            final(self).rng == old(self).rng,
            final(self).timers@ == old(self).timers@,
            final(self).outbox@ == old(self).outbox@.push(env_of(from, to, old(self).now, msg)),
    {
        let sent_at = self.now;
        self.outbox.push(Envelope { from, to, sent_at, msg });
    }

    /// Arm timer `id` to fire `delay` ticks from now.
    pub fn schedule_timer(&mut self, delay: Time, id: u64)
        ensures
            final(self).now == old(self).now,
            final(self).rng == old(self).rng,
            final(self).outbox@ == old(self).outbox@,
            final(self).timers@ == old(self).timers@.push((delay, id)),
    {
        self.timers.push((delay, id));
    }
}

impl<M: Copy> StepCtx<M> {
    /// Send `msg` from `from` to every node of `peers`, in order.
    pub fn broadcast(&mut self, from: NodeId, peers: &Vec<NodeId>, msg: M)
        ensures
            final(self).now == old(self).now,
            final(self).rng == old(self).rng,
            final(self).timers@ == old(self).timers@,
            final(self).outbox@ == old(self).outbox@ + sends_to_all(
                from,
                peers@,
                old(self).now,
                msg,
            ),
    {
        let ghost start = self.outbox@;
        let mut i: usize = 0;
        while i < peers.len()
            invariant
                i <= peers.len(),
                self.now == old(self).now,
                self.timers@ == old(self).timers@,
                self.rng == old(self).rng,
                start == old(self).outbox@,
                self.outbox@ == start + sends_to_all(from, peers@.take(i as int), self.now, msg),
            decreases peers.len() - i,
        {
            self.send(from, peers[i], msg);
            assert(sends_to_all(from, peers@.take(i + 1), self.now, msg) =~= sends_to_all(
                from,
                peers@.take(i as int),
                self.now,
                msg,
            ).push(env_of(from, peers@[i as int], self.now, msg)));
            i = i + 1;
        }
        assert(peers@.take(peers.len() as int) =~= peers@);
    }
}

/// Send the message that `make` builds (always `msg`) from `from` to
/// every node of `peers`, in order.
pub(crate) fn broadcast_with<M, F: Fn() -> M>(
    ctx: &mut StepCtx<M>,
    from: NodeId,
    peers: &Vec<NodeId>,
    make: F,
    Ghost(msg): Ghost<M>,
)
    requires
        forall|r: M| call_ensures(make, (), r) ==> r == msg,
        call_requires(make, ()),
    ensures
        final(ctx).now == old(ctx).now,
        final(ctx).rng == old(ctx).rng,
        final(ctx).timers@ == old(ctx).timers@,
        final(ctx).outbox@ == old(ctx).outbox@ + sends_to_all(from, peers@, old(ctx).now, msg),
{
    let ghost start = ctx.outbox@;
    let mut i: usize = 0;
    while i < peers.len()
        invariant
            i <= peers.len(),
            ctx.now == old(ctx).now,
            ctx.timers@ == old(ctx).timers@,
            ctx.rng == old(ctx).rng,
            start == old(ctx).outbox@,
            forall|r: M| call_ensures(make, (), r) ==> r == msg,
            call_requires(make, ()),
            ctx.outbox@ == start + sends_to_all(from, peers@.take(i as int), ctx.now, msg),
        decreases peers.len() - i,
    {
        let m = make();
        ctx.send(from, peers[i], m);
        assert(sends_to_all(from, peers@.take(i + 1), ctx.now, msg) =~= sends_to_all(
            from,
            peers@.take(i as int),
            ctx.now,
            msg,
        ).push(env_of(from, peers@[i as int], ctx.now, msg)));
        i = i + 1;
    }
    assert(peers@.take(peers.len() as int) =~= peers@);
}

/// A network adversary: it sees each envelope as it is sent and
/// decides when, if ever, it is delivered, possibly altering it.
pub trait Adversary<M>: Sized {
    /// Whether an interception at `now` keeps every delivery time and
    /// counter of the adversary within range.
    spec fn admits(&self, now: Time) -> bool;

    /// Whether `out`, with the adversary left as `post`, is a possible
    /// outcome of intercepting `env` at `now`.
    open spec fn outcome(&self, env: Envelope<M>, now: Time, post: Self, out: Seq<(Time, Envelope<M>)>) -> bool {
        true
    }

    /// Decide the fate of `env`, sent at `now`: the returned pairs are
    /// the deliveries, each at its time.
    fn intercept(&mut self, env: Envelope<M>, now: Time, rng: &mut SimRng) -> (r: Vec<
        (Time, Envelope<M>),
    >)
        requires
            old(self).admits(now),
        ensures
            old(self).outcome(env, now, *final(self), r@),
    ;
}

/// The benign network: every message arrives one tick after it is sent.
pub struct NoOpAdversary;

impl<M> Adversary<M> for NoOpAdversary {
    open spec fn admits(&self, now: Time) -> bool {
        now < Time::MAX
    }

    /// The message is delivered unchanged one tick later.
    open spec fn outcome(&self, env: Envelope<M>, now: Time, post: Self, out: Seq<(Time, Envelope<M>)>) -> bool {
        out == seq![((now + 1) as Time, env)]
    }

    fn intercept(&mut self, env: Envelope<M>, now: Time, rng: &mut SimRng) -> (r: Vec<
        (Time, Envelope<M>),
    >)
        ensures
            *final(rng) == *old(rng),
    {
        let mut r = Vec::new();
        r.push((now + 1, env));
        r
    }
}

} // verus!
