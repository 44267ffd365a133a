//! State-machine replication (Schneider 1990): deterministic state
//! machines, replicas that apply committed operations in order, and a
//! leader that broadcasts its operations to every replica.

use vstd::prelude::*;
use crate::net::{Envelope, NodeId, StepCtx};

verus! {

/// A deterministic state machine: applying `op` to a state yields the
/// next state and an output, both functions of the state and `op` alone.
pub trait StateMachine: Sized {
    /// Operation type (commands).
    type Op: Clone;
    /// Output type (the value returned to the client).
    type Out: Clone;

    /// The state after applying `op`.
    spec fn next_state(&self, op: Self::Op) -> Self;

    /// The output of applying `op`.
    spec fn output(&self, op: Self::Op) -> Self::Out;

    /// Apply `op` to the state, mutating it in place.
    fn apply(&mut self, op: &Self::Op) -> (out: Self::Out)
        ensures
            *final(self) == old(self).next_state(*op),
            out == old(self).output(*op),
    ;
}

/// The state reached from `s` by applying `ops` in order.
pub open spec fn replay<S: StateMachine>(s: S, ops: Seq<S::Op>) -> S
    decreases ops.len(),
{
    if ops.len() == 0 {
        s
    } else {
        replay(s, ops.drop_last()).next_state(ops.last())
    }
}

/// A counter, incremented or scaled with wrap-around.
#[derive(Clone, Debug, Default, PartialEq, Eq)]
pub struct Counter {
    /// Current counter value.
    pub value: u64,
}

/// Operations on `Counter`.
#[derive(Clone, Copy, Debug)]
pub enum CounterOp {
    /// Add `delta` to the counter.
    Add(u64),
    /// Multiply the counter by `factor`.
    Mul(u64),
    /// Read the current counter value.
    Read,
}

/// The counter value after `op`, with arithmetic modulo 2^64.
pub open spec fn counter_after(value: u64, op: CounterOp) -> u64 {
    match op {
        CounterOp::Add(d) => vstd::wrapping::u64_specs::wrapping_add(value, d),
        CounterOp::Mul(f) => vstd::wrapping::u64_specs::wrapping_mul(value, f),
        CounterOp::Read => value,
    }
}

impl StateMachine for Counter {
    type Op = CounterOp;
    type Out = u64;

    open spec fn next_state(&self, op: CounterOp) -> Counter {
        Counter { value: counter_after(self.value, op) }
    }

    open spec fn output(&self, op: CounterOp) -> u64 {
        counter_after(self.value, op)
    }

    fn apply(&mut self, op: &CounterOp) -> (out: u64) {
        match *op {
            CounterOp::Add(d) => {
                self.value = self.value.wrapping_add(d);
            },
            CounterOp::Mul(f) => {
                self.value = self.value.wrapping_mul(f);
            },
            CounterOp::Read => {},
        }
        self.value
    }
}

/// A replica of a state machine `S`: it applies committed operations in
/// order and remembers the operations and the outputs.
pub struct Replica<S: StateMachine> {
    state: S,
    log: Vec<S::Op>,
    outputs: Vec<S::Out>,
    initial: Ghost<S>,
}

impl<S: StateMachine> Replica<S> {
    /// The current state.
    pub closed spec fn state_spec(&self) -> S {
        self.state
    }

    /// The committed operations, in order.
    pub closed spec fn log_spec(&self) -> Seq<S::Op> {
        self.log@
    }

    /// The outputs produced, in order.
    pub closed spec fn outputs_spec(&self) -> Seq<S::Out> {
        self.outputs@
    }

    /// The state the replica started from.
    pub closed spec fn initial_spec(&self) -> S {
        self.initial@
    }

    /// The replica is in the state its log leads to from its initial
    /// state, with one output per committed operation: a clone of that
    /// operation's output in the state its log prefix leads to.
    pub open spec fn inv(&self) -> bool {
        &&& self.state_spec() == replay(self.initial_spec(), self.log_spec())
        &&& self.outputs_spec().len() == self.log_spec().len()
        &&& forall|i: int|
            0 <= i < self.log_spec().len() ==> cloned(
                replay(self.initial_spec(), self.log_spec().take(i)).output(self.log_spec()[i]),
                #[trigger] self.outputs_spec()[i],
            )
    }

    /// Build a replica wrapping the given initial state.
    pub fn new(initial: S) -> (r: Self)
        ensures
            r.inv(),
            r.initial_spec() == initial,
            r.state_spec() == initial,
            r.log_spec().len() == 0,
            r.outputs_spec().len() == 0,
    {
        Replica { state: initial, log: Vec::new(), outputs: Vec::new(), initial: Ghost(initial) }
    }

    /// The current state.
    pub fn state(&self) -> (r: &S)
        ensures
            *r == self.state_spec(),
    {
        &self.state
    }

    /// The committed log.
    pub fn log(&self) -> (r: &[S::Op])
        ensures
            r@ == self.log_spec(),
    {
        self.log.as_slice()
    }

    /// The produced outputs.
    pub fn outputs(&self) -> (r: &[S::Out])
        ensures
            r@ == self.outputs_spec(),
    {
        self.outputs.as_slice()
    }
}

impl<S: StateMachine> Replica<S> where S::Out: Clone {
    /// Apply `op` to the local state, recording it in the log and its
    /// output (a clone of the returned one) in the outputs.
    pub fn commit(&mut self, op: S::Op) -> (out: S::Out)
        ensures
            old(self).inv() ==> final(self).inv(),
            final(self).initial_spec() == old(self).initial_spec(),
            final(self).state_spec() == old(self).state_spec().next_state(op),
            final(self).log_spec() == old(self).log_spec().push(op),
            out == old(self).state_spec().output(op),
            final(self).outputs_spec().len() == old(self).outputs_spec().len() + 1,
            final(self).outputs_spec().drop_last() == old(self).outputs_spec(),
            cloned(out, final(self).outputs_spec().last()),
    {
        let out = self.state.apply(&op);
        self.log.push(op);
        self.outputs.push(out.clone());
        assert(self.log@.drop_last() =~= old(self).log@);
        assert(self.outputs@.drop_last() =~= old(self).outputs@);
        proof {
            if old(self).inv() {
                let n = old(self).log@.len() as int;
                assert forall|i: int| 0 <= i < self.log@.len() implies cloned(
                    replay(self.initial@, self.log@.take(i)).output(self.log@[i]),
                    #[trigger] self.outputs@[i],
                ) by {
                    if i < n {
                        assert(self.log@.take(i) =~= old(self).log@.take(i));
                        assert(self.outputs@[i] == old(self).outputs@[i]);
                        assert(cloned(
                            replay(old(self).initial@, old(self).log@.take(i)).output(old(self).log@[i]),
                            old(self).outputs@[i],
                        ));
                    } else {
                        assert(self.log@.take(i) =~= old(self).log@);
                    }
                }
            }
        }
        out
    }
}

/// SMR safety: replicas that started from the same state and committed
/// the same operations in the same order are in the same state.
pub proof fn lemma_smr_safety<S: StateMachine>(r1: Replica<S>, r2: Replica<S>)
    requires
        r1.inv(),
        r2.inv(),
        r1.initial_spec() == r2.initial_spec(),
        r1.log_spec() == r2.log_spec(),
    ensures
        r1.state_spec() == r2.state_spec(),
{
}

/// Each output a replica recorded is (a clone of) the output of its
/// operation in the state that the operations before it lead to from
/// the initial state.
pub proof fn lemma_outputs_replay<S: StateMachine>(r: Replica<S>, i: int)
    requires
        r.inv(),
        0 <= i < r.log_spec().len(),
    ensures
        cloned(replay(r.initial_spec(), r.log_spec().take(i)).output(r.log_spec()[i]), r.outputs_spec()[i]),
{
}

/// Replaying a log in two parts is replaying it whole: a replica that
/// has applied a prefix continues from the state that prefix leads to.
pub proof fn lemma_replay_append<S: StateMachine>(s: S, a: Seq<S::Op>, b: Seq<S::Op>)
    ensures
        replay(s, a + b) == replay(replay(s, a), b),
    decreases b.len(),
{
    if b.len() == 0 {
        assert(a + b =~= a);
    } else {
        lemma_replay_append(s, a, b.drop_last());
        assert((a + b).drop_last() =~= a + b.drop_last());
        assert((a + b).last() == b.last());
    }
}

/// Wire message of the leader-broadcast SMR.
pub enum SmrMsg<S: StateMachine> {
    /// The leader announces operation `op` at sequence number `seq`.
    Commit {
        /// Sequence number.
        seq: u64,
        /// The operation to apply.
        op: S::Op,
    },
}

/// A node of the leader-broadcast SMR: the leader drains its pending
/// operations on its first tick and sends each, numbered in sequence, to
/// every node (itself included); every node commits operations in the
/// order they arrive.
pub struct LeaderBroadcastNode<S: StateMachine> {
    /// This node's identity.
    pub id: NodeId,
    /// The leader.
    pub leader: NodeId,
    /// All nodes, this one included.
    pub peers: Vec<NodeId>,
    /// Operations to broadcast (leader only).
    pub pending: Vec<S::Op>,
    /// Next sequence number.
    pub next_seq: u64,
    /// The local replica.
    pub replica: Replica<S>,
}

/// Whether `e` is the commit of a clone of `op` at `seq` from `from` to
/// `to`, sent at `now`.
pub open spec fn is_commit<S: StateMachine>(e: Envelope<SmrMsg<S>>, from: NodeId, to: NodeId, now: u64, seq: int, op: S::Op) -> bool
    where S::Op: Clone,
{
    &&& e.from == from
    &&& e.to == to
    &&& e.sent_at == now
    &&& e.msg matches SmrMsg::Commit { seq: s, op: o } && s == seq && cloned(op, o)
}

impl<S: StateMachine> LeaderBroadcastNode<S> where S::Op: Clone, S::Out: Clone {
    /// Build a node; `peers` should include the node itself, and only the
    /// leader's `pending` is used.
    pub fn new(id: NodeId, leader: NodeId, peers: Vec<NodeId>, pending: Vec<S::Op>, initial: S) -> (s: Self)
        ensures
            s.id == id,
            s.leader == leader,
            s.peers@ == peers@,
            s.pending@ == pending@,
            s.next_seq == 0,
            s.replica.inv(),
            s.replica.state_spec() == initial,
            s.replica.initial_spec() == initial,
            s.replica.log_spec().len() == 0,
    {
        LeaderBroadcastNode { id, leader, peers, pending, next_seq: 0, replica: Replica::new(initial) }
    }

    /// The underlying replica.
    pub fn replica(&self) -> (r: &Replica<S>)
        ensures
            *r == self.replica,
    {
        &self.replica
    }

    /// First tick of the leader: send each pending operation, numbered
    /// from `next_seq` on, to every peer in turn.
    pub fn on_tick(&mut self, ctx: &mut StepCtx<SmrMsg<S>>)
        requires
            old(self).next_seq + old(self).pending@.len() <= u64::MAX,
        ensures
            final(ctx).now == old(ctx).now,
            final(ctx).timers@ == old(ctx).timers@,
            final(ctx).rng == old(ctx).rng,
            if old(self).id != old(self).leader {
                &&& *final(self) == *old(self)
                &&& final(ctx).outbox@ == old(ctx).outbox@
            } else {
                let np = old(self).peers@.len();
                let ops = old(self).pending@;
                let o = old(ctx).outbox@.len();
                &&& final(self).pending@.len() == 0
                &&& final(self).next_seq == old(self).next_seq + ops.len()
                &&& *final(self) == (LeaderBroadcastNode { pending: final(self).pending, next_seq: final(self).next_seq, ..*old(self) })
                &&& final(ctx).outbox@.len() == o + ops.len() * np
                &&& final(ctx).outbox@.take(o as int) == old(ctx).outbox@
                &&& forall|j: int, k: int| 0 <= j < ops.len() && 0 <= k < np ==> is_commit(
                    #[trigger] final(ctx).outbox@[o + j * np + k],
                    old(self).id,
                    old(self).peers@[k],
                    old(ctx).now,
                    old(self).next_seq + j,
                    ops[j],
                )
            },
    {
        if self.id.0 != self.leader.0 {
            return;
        }
        let mut pending = Vec::new();
        std::mem::swap(&mut pending, &mut self.pending);
        let ghost s0 = *self;
        let ghost o = ctx.outbox@.len();
        let ghost out0 = ctx.outbox@;
        let np = self.peers.len();
        let mut j: usize = 0;
        while j < pending.len()
            invariant
                j <= pending@.len(),
                pending@ == old(self).pending@,
                np == self.peers@.len(),
                *self == (LeaderBroadcastNode { next_seq: self.next_seq, ..s0 }),
                s0 == (LeaderBroadcastNode { pending: s0.pending, ..*old(self) }),
                s0.pending@.len() == 0,
                old(self).next_seq + pending@.len() <= u64::MAX,
                self.next_seq == old(self).next_seq + j,
                o == out0.len(),
                out0 == old(ctx).outbox@,
                ctx.now == old(ctx).now,
                ctx.timers@ == old(ctx).timers@,
                ctx.rng == old(ctx).rng,
                ctx.outbox@.len() == o + j * np,
                ctx.outbox@.take(o as int) == out0,
                forall|a: int, k: int| 0 <= a < j && 0 <= k < np ==> is_commit(
                    #[trigger] ctx.outbox@[o + a * np + k],
                    self.id,
                    self.peers@[k],
                    ctx.now,
                    old(self).next_seq + a,
                    pending@[a],
                ),
            decreases pending@.len() - j,
        {
            let seq = self.next_seq;
            self.next_seq = self.next_seq + 1;
            let mut k: usize = 0;
            let ghost base = ctx.outbox@.len();
            while k < np
                invariant
                    j < pending@.len(),
                    k <= np,
                    np == self.peers@.len(),
                    seq == old(self).next_seq + j,
                    base == o + j * np,
                    ctx.now == old(ctx).now,
                    ctx.timers@ == old(ctx).timers@,
                    ctx.rng == old(ctx).rng,
                ctx.rng == old(ctx).rng,
                    ctx.outbox@.len() == base + k,
                    ctx.outbox@.take(o as int) == out0,
                    forall|a: int, kk: int| 0 <= a < j && 0 <= kk < np ==> is_commit(
                        #[trigger] ctx.outbox@[o + a * np + kk],
                        self.id,
                        self.peers@[kk],
                        ctx.now,
                        old(self).next_seq + a,
                        pending@[a],
                    ),
                    forall|kk: int| 0 <= kk < k ==> is_commit(
                        #[trigger] ctx.outbox@[base + kk],
                        self.id,
                        self.peers@[kk],
                        ctx.now,
                        seq as int,
                        pending@[j as int],
                    ),
                decreases np - k,
            {
                let op = pending[j].clone();
                let ghost prev = ctx.outbox@;
                ctx.send(self.id, self.peers[k], SmrMsg::Commit { seq, op });
                proof {
                    assert forall|a: int, kk: int| 0 <= a < j && 0 <= kk < np implies is_commit(
                        #[trigger] ctx.outbox@[o + a * np + kk],
                        self.id,
                        self.peers@[kk],
                        ctx.now,
                        old(self).next_seq + a,
                        pending@[a],
                    ) by {
                        assert(a * np + kk < (a + 1) * np) by (nonlinear_arith)
                            requires
                                kk < np;
                        assert((a + 1) * np <= j * np) by (nonlinear_arith)
                            requires
                                a + 1 <= j,
                                np >= 0;
                        assert(ctx.outbox@[o + a * np + kk] == prev[o + a * np + kk]);
                    }
                    assert(ctx.outbox@.take(o as int) =~= prev.take(o as int));
                }
                k = k + 1;
            }
            proof {
                assert(base + np == o + (j + 1) * np) by (nonlinear_arith)
                    requires
                        base == o + j * np;
                assert forall|a: int, kk: int| 0 <= a < j + 1 && 0 <= kk < np implies is_commit(
                    #[trigger] ctx.outbox@[o + a * np + kk],
                    self.id,
                    self.peers@[kk],
                    ctx.now,
                    old(self).next_seq + a,
                    pending@[a],
                ) by {
                    if a == j {
                        assert(o + a * np + kk == base + kk);
                    }
                }
            }
            j = j + 1;
        }
    }

    /// Commit each arriving operation to the local replica.
    pub fn on_receive(&mut self, env: Envelope<SmrMsg<S>>, ctx: &mut StepCtx<SmrMsg<S>>)
        ensures
            *final(ctx) == *old(ctx),
            match env.msg {
                SmrMsg::Commit { op, .. } => {
                    &&& old(self).replica.inv() ==> final(self).replica.inv()
                    &&& final(self).replica.initial_spec() == old(self).replica.initial_spec()
                    &&& final(self).replica.state_spec() == old(self).replica.state_spec().next_state(op)
                    &&& final(self).replica.log_spec() == old(self).replica.log_spec().push(op)
                    &&& final(self).replica.outputs_spec().len() == old(self).replica.outputs_spec().len() + 1
                    &&& final(self).replica.outputs_spec().drop_last() == old(self).replica.outputs_spec()
                    &&& cloned(old(self).replica.state_spec().output(op), final(self).replica.outputs_spec().last())
                    &&& *final(self) == (LeaderBroadcastNode { replica: final(self).replica, ..*old(self) })
                },
            },
    {
        let SmrMsg::Commit { seq: _, op } = env.msg;
        let _ = self.replica.commit(op);
    }
}

} // verus!
