//! End-to-end runs of the protocol nodes on a small discrete-event
//! scheduler: every node ticks once at time 1 (in the order added),
//! then events run in order of time and, within a time, of scheduling.
//! Each send goes through the adversary, which decides its deliveries;
//! timers fire `delay` ticks after they were armed.

use protocols::ben_or::BenOrNode;
use protocols::bracha_aba::BrachaAbaNode;
use protocols::bracha_rb::BrachaNode;
use protocols::byzantine_generals::{self, Decision};
use protocols::cap::{ApRegister, CpRegister, OnePartitionAdversary};
use protocols::chain_replication::ChainNode;
use protocols::collections::KeyMap;
use protocols::dolev_reischuk::CountingAdversary;
use protocols::dolev_strong::{DropAllForwards, SbNode};
use protocols::failure_detector::HeartbeatNode;
use protocols::failure_models::CrashStopAdversary;
use protocols::flp::{VoterNode, WithholdToOne};
use protocols::mencius::MenciusNode;
use protocols::mmr::MmrNode;
use protocols::multi_paxos::MpNode;
use protocols::net::{Adversary, Envelope, NoOpAdversary, NodeId, SimRng, StepCtx, Time};
use protocols::paxos_synod::SynodNode;
use protocols::pbft::PbftNode;
use protocols::rabin::RabinNode;
use protocols::raft::RaftNode;
use protocols::smr::{Counter, CounterOp, LeaderBroadcastNode, SmrMsg, StateMachine};
use protocols::system_models::{AsynchronousAdversary, PartiallySynchronousAdversary, SynchronousAdversary};
use protocols::two_generals;
use protocols::two_phase_commit::{State, TpcNode};
use protocols::viewstamped::VrNode;
use protocols::zab::ZabNode;

// ---------------------------------------------------------------------
// The scheduler
// ---------------------------------------------------------------------

trait Process {
    type Message;
    fn id(&self) -> NodeId;
    fn on_tick(&mut self, ctx: &mut StepCtx<Self::Message>);
    fn on_receive(&mut self, env: Envelope<Self::Message>, ctx: &mut StepCtx<Self::Message>);
    fn on_timer(&mut self, _id: u64, _ctx: &mut StepCtx<Self::Message>) {}
}

enum Event<M> {
    Tick(NodeId),
    Deliver(Envelope<M>),
    Timer(NodeId, u64),
}

#[derive(Debug)]
enum SimError {
    DuplicateNode,
    StepBound,
}

struct Scheduler<P: Process> {
    nodes: Vec<P>,
    events: Vec<(Time, u64, Event<P::Message>)>,
    seq: u64,
    rng: Option<SimRng>,
}

impl<P: Process> Scheduler<P> {
    fn new(seed: u64) -> Self {
        Scheduler { nodes: Vec::new(), events: Vec::new(), seq: 0, rng: Some(SimRng::new(seed)) }
    }

    fn push(&mut self, at: Time, ev: Event<P::Message>) {
        self.events.push((at, self.seq, ev));
        self.seq += 1;
    }

    fn add_node(&mut self, p: P) -> Result<(), SimError> {
        let id = p.id();
        if self.nodes.iter().any(|q| q.id() == id) {
            return Err(SimError::DuplicateNode);
        }
        self.nodes.push(p);
        self.push(1, Event::Tick(id));
        Ok(())
    }

    fn node(&self, id: NodeId) -> Option<&P> {
        self.nodes.iter().find(|p| p.id() == id)
    }

    fn node_mut(&mut self, id: NodeId) -> Option<&mut P> {
        self.nodes.iter_mut().find(|p| p.id() == id)
    }

    fn run<A: Adversary<P::Message>>(&mut self, adv: &mut A, max_steps: usize) -> Result<(), SimError> {
        let mut steps = 0;
        while !self.events.is_empty() {
            if steps >= max_steps {
                return Err(SimError::StepBound);
            }
            steps += 1;
            let mut best = 0;
            for i in 1..self.events.len() {
                let (t, s, _) = &self.events[i];
                let (bt, bs, _) = &self.events[best];
                if (*t, *s) < (*bt, *bs) {
                    best = i;
                }
            }
            let (now, _, ev) = self.events.remove(best);
            let target = match &ev {
                Event::Tick(id) => *id,
                Event::Deliver(env) => env.to,
                Event::Timer(id, _) => *id,
            };
            let rng = self.rng.take().expect("rng");
            let mut ctx = StepCtx::new(now, rng);
            if let Some(node) = self.nodes.iter_mut().find(|p| p.id() == target) {
                match ev {
                    Event::Tick(_) => node.on_tick(&mut ctx),
                    Event::Deliver(env) => node.on_receive(env, &mut ctx),
                    Event::Timer(_, t) => node.on_timer(t, &mut ctx),
                }
            }
            let StepCtx { outbox, timers, rng, .. } = ctx;
            let mut rng = rng;
            for env in outbox {
                for (at, e) in adv.intercept(env, now, &mut rng) {
                    self.push(at, Event::Deliver(e));
                }
            }
            for (delay, t) in timers {
                self.push(now + delay, Event::Timer(target, t));
            }
            self.rng = Some(rng);
        }
        Ok(())
    }
}

impl Process for two_generals::General {
    type Message = two_generals::Msg;
    fn id(&self) -> NodeId {
        self.id
    }
    fn on_tick(&mut self, ctx: &mut StepCtx<two_generals::Msg>) {
        <two_generals::General>::on_tick(self, ctx)
    }
    fn on_receive(&mut self, env: Envelope<two_generals::Msg>, ctx: &mut StepCtx<two_generals::Msg>) {
        <two_generals::General>::on_receive(self, env, ctx)
    }
}

impl Process for byzantine_generals::General {
    type Message = byzantine_generals::Msg;
    fn id(&self) -> NodeId {
        self.id
    }
    fn on_tick(&mut self, ctx: &mut StepCtx<byzantine_generals::Msg>) {
        <byzantine_generals::General>::on_tick(self, ctx)
    }
    fn on_receive(&mut self, env: Envelope<byzantine_generals::Msg>, ctx: &mut StepCtx<byzantine_generals::Msg>) {
        <byzantine_generals::General>::on_receive(self, env, ctx)
    }
}

impl Process for VoterNode {
    type Message = protocols::flp::Msg;
    fn id(&self) -> NodeId {
        self.id
    }
    fn on_tick(&mut self, ctx: &mut StepCtx<protocols::flp::Msg>) {
        <VoterNode>::on_tick(self, ctx)
    }
    fn on_receive(&mut self, env: Envelope<protocols::flp::Msg>, ctx: &mut StepCtx<protocols::flp::Msg>) {
        <VoterNode>::on_receive(self, env, ctx)
    }
}

impl Process for SbNode {
    type Message = protocols::dolev_strong::Msg;
    fn id(&self) -> NodeId {
        self.id
    }
    fn on_tick(&mut self, ctx: &mut StepCtx<protocols::dolev_strong::Msg>) {
        <SbNode>::on_tick(self, ctx)
    }
    fn on_receive(&mut self, env: Envelope<protocols::dolev_strong::Msg>, ctx: &mut StepCtx<protocols::dolev_strong::Msg>) {
        <SbNode>::on_receive(self, env, ctx)
    }
}

impl Process for BrachaNode<u32> {
    type Message = protocols::bracha_rb::Msg<u32>;
    fn id(&self) -> NodeId {
        self.id
    }
    fn on_tick(&mut self, ctx: &mut StepCtx<protocols::bracha_rb::Msg<u32>>) {
        <BrachaNode<u32>>::on_tick(self, ctx)
    }
    fn on_receive(&mut self, env: Envelope<protocols::bracha_rb::Msg<u32>>, ctx: &mut StepCtx<protocols::bracha_rb::Msg<u32>>) {
        <BrachaNode<u32>>::on_receive(self, env, ctx)
    }
}

impl Process for BenOrNode {
    type Message = protocols::ben_or::Msg;
    fn id(&self) -> NodeId {
        self.id
    }
    fn on_tick(&mut self, ctx: &mut StepCtx<protocols::ben_or::Msg>) {
        <BenOrNode>::on_tick(self, ctx)
    }
    fn on_receive(&mut self, env: Envelope<protocols::ben_or::Msg>, ctx: &mut StepCtx<protocols::ben_or::Msg>) {
        <BenOrNode>::on_receive(self, env, ctx)
    }
}

impl Process for TpcNode {
    type Message = protocols::two_phase_commit::Msg;
    fn id(&self) -> NodeId {
        self.id
    }
    fn on_tick(&mut self, ctx: &mut StepCtx<protocols::two_phase_commit::Msg>) {
        <TpcNode>::on_tick(self, ctx)
    }
    fn on_receive(&mut self, env: Envelope<protocols::two_phase_commit::Msg>, ctx: &mut StepCtx<protocols::two_phase_commit::Msg>) {
        <TpcNode>::on_receive(self, env, ctx)
    }
}

impl Process for VrNode {
    type Message = protocols::viewstamped::Msg;
    fn id(&self) -> NodeId {
        self.id
    }
    fn on_tick(&mut self, ctx: &mut StepCtx<protocols::viewstamped::Msg>) {
        <VrNode>::on_tick(self, ctx)
    }
    fn on_receive(&mut self, env: Envelope<protocols::viewstamped::Msg>, ctx: &mut StepCtx<protocols::viewstamped::Msg>) {
        <VrNode>::on_receive(self, env, ctx)
    }
}

impl Process for SynodNode {
    type Message = protocols::paxos_synod::Msg;
    fn id(&self) -> NodeId {
        self.id
    }
    fn on_tick(&mut self, ctx: &mut StepCtx<protocols::paxos_synod::Msg>) {
        <SynodNode>::on_tick(self, ctx)
    }
    fn on_receive(&mut self, env: Envelope<protocols::paxos_synod::Msg>, ctx: &mut StepCtx<protocols::paxos_synod::Msg>) {
        <SynodNode>::on_receive(self, env, ctx)
    }
}

impl Process for MpNode {
    type Message = protocols::multi_paxos::Msg;
    fn id(&self) -> NodeId {
        self.id
    }
    fn on_tick(&mut self, ctx: &mut StepCtx<protocols::multi_paxos::Msg>) {
        <MpNode>::on_tick(self, ctx)
    }
    fn on_receive(&mut self, env: Envelope<protocols::multi_paxos::Msg>, ctx: &mut StepCtx<protocols::multi_paxos::Msg>) {
        <MpNode>::on_receive(self, env, ctx)
    }
}

impl Process for MenciusNode {
    type Message = protocols::mencius::Msg;
    fn id(&self) -> NodeId {
        self.id
    }
    fn on_tick(&mut self, ctx: &mut StepCtx<protocols::mencius::Msg>) {
        <MenciusNode>::on_tick(self, ctx)
    }
    fn on_receive(&mut self, env: Envelope<protocols::mencius::Msg>, ctx: &mut StepCtx<protocols::mencius::Msg>) {
        <MenciusNode>::on_receive(self, env, ctx)
    }
}

impl Process for RaftNode {
    type Message = protocols::raft::Msg;
    fn id(&self) -> NodeId {
        self.id
    }
    fn on_tick(&mut self, ctx: &mut StepCtx<protocols::raft::Msg>) {
        <RaftNode>::on_tick(self, ctx)
    }
    fn on_receive(&mut self, env: Envelope<protocols::raft::Msg>, ctx: &mut StepCtx<protocols::raft::Msg>) {
        <RaftNode>::on_receive(self, env, ctx)
    }
}

impl Process for ZabNode {
    type Message = protocols::zab::Msg;
    fn id(&self) -> NodeId {
        self.id
    }
    fn on_tick(&mut self, ctx: &mut StepCtx<protocols::zab::Msg>) {
        <ZabNode>::on_tick(self, ctx)
    }
    fn on_receive(&mut self, env: Envelope<protocols::zab::Msg>, ctx: &mut StepCtx<protocols::zab::Msg>) {
        <ZabNode>::on_receive(self, env, ctx)
    }
}

impl Process for ChainNode {
    type Message = protocols::chain_replication::Msg;
    fn id(&self) -> NodeId {
        self.id
    }
    fn on_tick(&mut self, ctx: &mut StepCtx<protocols::chain_replication::Msg>) {
        <ChainNode>::on_tick(self, ctx)
    }
    fn on_receive(&mut self, env: Envelope<protocols::chain_replication::Msg>, ctx: &mut StepCtx<protocols::chain_replication::Msg>) {
        <ChainNode>::on_receive(self, env, ctx)
    }
}

impl Process for PbftNode {
    type Message = protocols::pbft::Msg;
    fn id(&self) -> NodeId {
        self.id
    }
    fn on_tick(&mut self, ctx: &mut StepCtx<protocols::pbft::Msg>) {
        <PbftNode>::on_tick(self, ctx)
    }
    fn on_receive(&mut self, env: Envelope<protocols::pbft::Msg>, ctx: &mut StepCtx<protocols::pbft::Msg>) {
        <PbftNode>::on_receive(self, env, ctx)
    }
}

impl<S: StateMachine + Clone> Process for LeaderBroadcastNode<S>
where
    S::Op: Clone,
    S::Out: Clone,
{
    type Message = SmrMsg<S>;
    fn id(&self) -> NodeId {
        self.id
    }
    fn on_tick(&mut self, ctx: &mut StepCtx<SmrMsg<S>>) {
        LeaderBroadcastNode::on_tick(self, ctx)
    }
    fn on_receive(&mut self, env: Envelope<SmrMsg<S>>, ctx: &mut StepCtx<SmrMsg<S>>) {
        LeaderBroadcastNode::on_receive(self, env, ctx)
    }
}

impl<F: Fn(u32) -> bool> Process for RabinNode<F> {
    type Message = protocols::rabin::Msg;
    fn id(&self) -> NodeId {
        self.id
    }
    fn on_tick(&mut self, ctx: &mut StepCtx<protocols::rabin::Msg>) {
        RabinNode::on_tick(self, ctx)
    }
    fn on_receive(&mut self, env: Envelope<protocols::rabin::Msg>, ctx: &mut StepCtx<protocols::rabin::Msg>) {
        RabinNode::on_receive(self, env, ctx)
    }
}

impl<F: Fn(u32) -> bool> Process for BrachaAbaNode<F> {
    type Message = protocols::bracha_aba::Msg;
    fn id(&self) -> NodeId {
        self.id
    }
    fn on_tick(&mut self, ctx: &mut StepCtx<protocols::bracha_aba::Msg>) {
        BrachaAbaNode::on_tick(self, ctx)
    }
    fn on_receive(&mut self, env: Envelope<protocols::bracha_aba::Msg>, ctx: &mut StepCtx<protocols::bracha_aba::Msg>) {
        BrachaAbaNode::on_receive(self, env, ctx)
    }
}

impl<F: Fn(u32) -> bool> Process for MmrNode<F> {
    type Message = protocols::mmr::Msg;
    fn id(&self) -> NodeId {
        self.id
    }
    fn on_tick(&mut self, ctx: &mut StepCtx<protocols::mmr::Msg>) {
        MmrNode::on_tick(self, ctx)
    }
    fn on_receive(&mut self, env: Envelope<protocols::mmr::Msg>, ctx: &mut StepCtx<protocols::mmr::Msg>) {
        MmrNode::on_receive(self, env, ctx)
    }
}

impl Process for ApRegister {
    type Message = protocols::cap::Msg;
    fn id(&self) -> NodeId {
        self.id
    }
    fn on_tick(&mut self, ctx: &mut StepCtx<protocols::cap::Msg>) {
        ApRegister::on_tick(self, ctx)
    }
    fn on_receive(&mut self, env: Envelope<protocols::cap::Msg>, ctx: &mut StepCtx<protocols::cap::Msg>) {
        ApRegister::on_receive(self, env, ctx)
    }
    fn on_timer(&mut self, id: u64, ctx: &mut StepCtx<protocols::cap::Msg>) {
        ApRegister::on_timer(self, id, ctx)
    }
}

impl Process for CpRegister {
    type Message = protocols::cap::Msg;
    fn id(&self) -> NodeId {
        self.id
    }
    fn on_tick(&mut self, ctx: &mut StepCtx<protocols::cap::Msg>) {
        CpRegister::on_tick(self, ctx)
    }
    fn on_receive(&mut self, env: Envelope<protocols::cap::Msg>, ctx: &mut StepCtx<protocols::cap::Msg>) {
        CpRegister::on_receive(self, env, ctx)
    }
    fn on_timer(&mut self, id: u64, ctx: &mut StepCtx<protocols::cap::Msg>) {
        CpRegister::on_timer(self, id, ctx)
    }
}

impl Process for HeartbeatNode {
    type Message = protocols::failure_detector::Msg;
    fn id(&self) -> NodeId {
        self.id
    }
    fn on_tick(&mut self, ctx: &mut StepCtx<protocols::failure_detector::Msg>) {
        HeartbeatNode::on_tick(self, ctx)
    }
    fn on_receive(&mut self, env: Envelope<protocols::failure_detector::Msg>, ctx: &mut StepCtx<protocols::failure_detector::Msg>) {
        HeartbeatNode::on_receive(self, env, ctx)
    }
    fn on_timer(&mut self, id: u64, ctx: &mut StepCtx<protocols::failure_detector::Msg>) {
        HeartbeatNode::on_timer(self, id, ctx)
    }
}

fn ids(n: usize) -> Vec<NodeId> {
    (0..n).map(|i| NodeId(u32::try_from(i).unwrap())).collect()
}

// ---------------------------------------------------------------------
// State-machine replication
// ---------------------------------------------------------------------

fn build_smr(n: usize, leader_pending: &[CounterOp], initial: &Counter) -> Scheduler<LeaderBroadcastNode<Counter>> {
    let ids = ids(n);
    let leader = ids[0];
    let mut sched = Scheduler::new(0);
    for (i, id) in ids.iter().enumerate() {
        let pending = if i == 0 { leader_pending.to_vec() } else { Vec::new() };
        sched.add_node(LeaderBroadcastNode::new(*id, leader, ids.clone(), pending, initial.clone())).unwrap();
    }
    sched
}

#[test]
fn smr_safety_with_reliable_network() {
    let ops = vec![CounterOp::Add(1), CounterOp::Add(2), CounterOp::Mul(10), CounterOp::Add(5)];
    let mut sched = build_smr(4, &ops, &Counter::default());
    let mut adv = NoOpAdversary;
    sched.run(&mut adv, 1000).unwrap();
    let mut states = Vec::new();
    let mut logs = Vec::new();
    for i in 0..4 {
        let n = sched.node(NodeId(i)).unwrap();
        states.push(n.replica().state().clone());
        logs.push(n.replica().log().to_vec());
    }
    for s in &states {
        assert_eq!(*s, states[0]);
    }
    for log in &logs {
        assert_eq!(log.len(), ops.len());
    }
    assert_eq!(states[0].value, 35);
}

struct DropToOne;

impl<M> Adversary<M> for DropToOne {
    fn admits(&self, _now: Time) -> bool {
        true
    }

    fn intercept(&mut self, env: Envelope<M>, now: Time, _rng: &mut SimRng) -> Vec<(Time, Envelope<M>)> {
        if env.to == NodeId(3) {
            Vec::new()
        } else {
            vec![(now + 1, env)]
        }
    }
}

#[test]
fn smr_safety_under_one_drop() {
    let ops = vec![CounterOp::Add(7), CounterOp::Add(11)];
    let mut sched = build_smr(4, &ops, &Counter::default());
    let mut adv = DropToOne;
    sched.run(&mut adv, 1000).unwrap();
    let n0 = sched.node(NodeId(0)).unwrap().replica().state().value;
    let n1 = sched.node(NodeId(1)).unwrap().replica().state().value;
    let n2 = sched.node(NodeId(2)).unwrap().replica().state().value;
    let n3 = sched.node(NodeId(3)).unwrap().replica().state().value;
    assert_eq!(n0, 18);
    assert_eq!(n1, 18);
    assert_eq!(n2, 18);
    assert_eq!(n3, 0);
}

// ---------------------------------------------------------------------
// Timing models
// ---------------------------------------------------------------------

#[derive(Clone, Copy, Debug)]
enum Hello {
    Hello,
}

struct Listener {
    id: NodeId,
    peer: NodeId,
    send_at: Time,
    sent: bool,
    received_at: Option<Time>,
}

impl Process for Listener {
    type Message = Hello;
    fn id(&self) -> NodeId {
        self.id
    }
    fn on_tick(&mut self, ctx: &mut StepCtx<Hello>) {
        if !self.sent && ctx.now >= self.send_at && self.id.0 == 0 {
            ctx.send(self.id, self.peer, Hello::Hello);
            self.sent = true;
        }
    }
    fn on_receive(&mut self, _env: Envelope<Hello>, ctx: &mut StepCtx<Hello>) {
        self.received_at = Some(ctx.now);
    }
}

fn listener_pair(send_at: Time) -> Scheduler<Listener> {
    let mut sched = Scheduler::<Listener>::new(0);
    sched.add_node(Listener { id: NodeId(0), peer: NodeId(1), send_at, sent: false, received_at: None }).unwrap();
    sched.add_node(Listener { id: NodeId(1), peer: NodeId(0), send_at, sent: false, received_at: None }).unwrap();
    sched
}

#[test]
fn synchronous_delivers_within_bound() {
    let mut sched = listener_pair(0);
    let mut adv = SynchronousAdversary::new(5);
    sched.run(&mut adv, 100).unwrap();
    let r1 = sched.node(NodeId(1)).unwrap();
    assert_eq!(r1.received_at, Some(6));
}

#[test]
fn asynchronous_delivers_eventually() {
    let mut sched = listener_pair(0);
    let mut adv = AsynchronousAdversary::new(50);
    sched.run(&mut adv, 1000).unwrap();
    let r1 = sched.node(NodeId(1)).unwrap();
    let t = r1.received_at.expect("delivery");
    assert!((2..=51).contains(&t));
}

#[test]
fn partial_synchrony_stabilises_at_gst() {
    let mut sched = listener_pair(0);
    let mut adv = PartiallySynchronousAdversary::new(20, 1, 200);
    sched.run(&mut adv, 1000).unwrap();
    let r1 = sched.node(NodeId(1)).unwrap();
    assert!(r1.received_at.is_some());
}

// ---------------------------------------------------------------------
// Failure models
// ---------------------------------------------------------------------

#[derive(Clone, Copy, Debug, PartialEq, Eq)]
struct Count(u32);

struct Beacon {
    id: NodeId,
    peer: NodeId,
    sent: u32,
    received: u32,
}

impl Process for Beacon {
    type Message = Count;
    fn id(&self) -> NodeId {
        self.id
    }
    fn on_tick(&mut self, ctx: &mut StepCtx<Count>) {
        if self.id.0 == 0 && self.sent < 10 {
            for k in 0..10 {
                ctx.send(self.id, self.peer, Count(k));
            }
            self.sent = 10;
        }
    }
    fn on_receive(&mut self, _env: Envelope<Count>, _ctx: &mut StepCtx<Count>) {
        self.received += 1;
    }
}

fn beacon_pair() -> Scheduler<Beacon> {
    let mut sched = Scheduler::<Beacon>::new(0);
    sched.add_node(Beacon { id: NodeId(0), peer: NodeId(1), sent: 0, received: 0 }).unwrap();
    sched.add_node(Beacon { id: NodeId(1), peer: NodeId(0), sent: 0, received: 0 }).unwrap();
    sched
}

#[test]
fn crash_at_zero_silences_sender() {
    let mut sched = beacon_pair();
    let mut crash_at = KeyMap::new();
    crash_at.insert(NodeId(0), 0);
    let mut adv = CrashStopAdversary::new(crash_at, NoOpAdversary);
    sched.run(&mut adv, 1000).unwrap();
    let r1 = sched.node(NodeId(1)).unwrap();
    assert_eq!(r1.received, 0);
}

#[test]
fn crash_after_partial_send_preserves_initial_messages() {
    let mut sched = beacon_pair();
    let mut crash_at = KeyMap::new();
    crash_at.insert(NodeId(0), 2);
    let mut adv = CrashStopAdversary::new(crash_at, NoOpAdversary);
    sched.run(&mut adv, 1000).unwrap();
    let r1 = sched.node(NodeId(1)).unwrap();
    assert_eq!(r1.received, 10);
}

// ---------------------------------------------------------------------
// Two generals
// ---------------------------------------------------------------------

fn generals_pair(rounds: u32) -> Scheduler<two_generals::General> {
    let mut sched = Scheduler::<two_generals::General>::new(0);
    sched.add_node(two_generals::General::new(NodeId(0), NodeId(1), true, rounds, 42)).unwrap();
    sched.add_node(two_generals::General::new(NodeId(1), NodeId(0), false, rounds, 0)).unwrap();
    sched
}

#[test]
fn reliable_network_agrees() {
    let mut sched = generals_pair(3);
    let mut adv = NoOpAdversary;
    sched.run(&mut adv, 1000).unwrap();
    let g0 = sched.node(NodeId(0)).unwrap();
    let g1 = sched.node(NodeId(1)).unwrap();
    assert_eq!(g0.decision, Some(42));
    assert_eq!(g1.decision, Some(42));
}

struct DropFinalAck {
    final_seq: u32,
}

impl Adversary<two_generals::Msg> for DropFinalAck {
    fn admits(&self, _now: Time) -> bool {
        true
    }

    fn intercept(
        &mut self,
        env: Envelope<two_generals::Msg>,
        now: Time,
        _rng: &mut SimRng,
    ) -> Vec<(Time, Envelope<two_generals::Msg>)> {
        if env.to == NodeId(0) {
            if let two_generals::Msg::Ack { seq, .. } = env.msg {
                if seq == self.final_seq {
                    return Vec::new();
                }
            }
        }
        vec![(now + 1, env)]
    }
}

#[test]
fn dropping_final_ack_breaks_agreement() {
    let mut sched = generals_pair(3);
    let mut adv = DropFinalAck { final_seq: 3 };
    sched.run(&mut adv, 1000).unwrap();
    let g0 = sched.node(NodeId(0)).unwrap();
    let g1 = sched.node(NodeId(1)).unwrap();
    assert_eq!(g1.decision, Some(42));
    assert_eq!(g0.decision, None);
}

// ---------------------------------------------------------------------
// Byzantine generals, OM(1)
// ---------------------------------------------------------------------

fn build_om1(intent: Decision, eq: Option<(Decision, Vec<NodeId>)>) -> Scheduler<byzantine_generals::General> {
    let everyone = vec![NodeId(0), NodeId(1), NodeId(2), NodeId(3)];
    let mut sched = Scheduler::<byzantine_generals::General>::new(0);
    sched.add_node(byzantine_generals::General::commander(NodeId(0), everyone.clone(), intent, eq)).unwrap();
    for &id in &everyone[1..] {
        sched.add_node(byzantine_generals::General::lieutenant(id, everyone.clone())).unwrap();
    }
    sched
}

#[test]
fn honest_commander_attack_propagates() {
    let mut sched = build_om1(Decision::Attack, None);
    let mut adv = NoOpAdversary;
    sched.run(&mut adv, 100).unwrap();
    for id in [NodeId(1), NodeId(2), NodeId(3)] {
        let g = sched.node(id).unwrap();
        assert_eq!(g.decision, Some(Decision::Attack));
    }
}

#[test]
fn byzantine_commander_equivocation_majority_wins() {
    let mut sched = build_om1(Decision::Attack, Some((Decision::Retreat, vec![NodeId(3)])));
    let mut adv = NoOpAdversary;
    sched.run(&mut adv, 100).unwrap();
    for id in [NodeId(1), NodeId(2), NodeId(3)] {
        let g = sched.node(id).unwrap();
        assert_eq!(g.decision, Some(Decision::Attack), "lieutenant {:?} disagreed", id);
    }
}

// ---------------------------------------------------------------------
// FLP illustration
// ---------------------------------------------------------------------

fn voter_pair(b0: bool, b1: bool) -> Scheduler<VoterNode> {
    let mut sched = Scheduler::<VoterNode>::new(0);
    sched.add_node(VoterNode::new(NodeId(0), NodeId(1), b0)).unwrap();
    sched.add_node(VoterNode::new(NodeId(1), NodeId(0), b1)).unwrap();
    sched
}

#[test]
fn benign_schedule_terminates() {
    let mut sched = voter_pair(true, false);
    let mut adv = NoOpAdversary;
    sched.run(&mut adv, 1000).unwrap();
    for id in [NodeId(0), NodeId(1)] {
        assert_eq!(sched.node(id).unwrap().decision, Some(true));
    }
}

#[test]
fn withhold_breaks_termination_for_target() {
    let mut sched = voter_pair(true, false);
    let mut adv = WithholdToOne { target: NodeId(1) };
    sched.run(&mut adv, 1000).unwrap();
    assert_eq!(sched.node(NodeId(0)).unwrap().decision, Some(true));
    assert_eq!(sched.node(NodeId(1)).unwrap().decision, None);
}

// ---------------------------------------------------------------------
// Dolev-Strong
// ---------------------------------------------------------------------

fn build_sb(rounds: usize, eq: Option<(bool, Vec<NodeId>)>) -> Scheduler<SbNode> {
    let everyone = vec![NodeId(0), NodeId(1), NodeId(2), NodeId(3)];
    let mut sched = Scheduler::<SbNode>::new(0);
    sched.add_node(SbNode::commander(NodeId(0), everyone.clone(), true, eq, rounds)).unwrap();
    for &id in &everyone[1..] {
        sched.add_node(SbNode::follower(id, everyone.clone(), rounds)).unwrap();
    }
    sched
}

#[test]
fn rounds_two_succeeds_under_byzantine_commander() {
    let mut sched = build_sb(2, Some((false, vec![NodeId(1)])));
    let mut adv = NoOpAdversary;
    sched.run(&mut adv, 100).unwrap();
    let mut decisions = Vec::new();
    for id in [NodeId(1), NodeId(2), NodeId(3)] {
        decisions.push(sched.node(id).unwrap().decision);
    }
    assert!(decisions.iter().all(|&d| d == decisions[0]));
    assert!(decisions[0].is_some());
}

#[test]
fn rounds_one_can_break_agreement() {
    let mut sched = build_sb(1, Some((false, vec![NodeId(3)])));
    let mut adv = DropAllForwards;
    sched.run(&mut adv, 100).unwrap();
    let d1 = sched.node(NodeId(1)).unwrap().decision;
    let d2 = sched.node(NodeId(2)).unwrap().decision;
    let d3 = sched.node(NodeId(3)).unwrap().decision;
    assert_eq!(d1, Some(true));
    assert_eq!(d2, Some(true));
    assert_eq!(d3, Some(false));
}

// ---------------------------------------------------------------------
// Dolev-Reischuk message counting
// ---------------------------------------------------------------------

#[derive(Clone, Copy, Debug)]
struct Ping;

struct AllToAll {
    id: NodeId,
    peers: Vec<NodeId>,
    sent: bool,
}

impl Process for AllToAll {
    type Message = Ping;
    fn id(&self) -> NodeId {
        self.id
    }
    fn on_tick(&mut self, ctx: &mut StepCtx<Ping>) {
        if self.sent {
            return;
        }
        self.sent = true;
        for &p in &self.peers {
            if p != self.id {
                ctx.send(self.id, p, Ping);
            }
        }
    }
    fn on_receive(&mut self, _env: Envelope<Ping>, _ctx: &mut StepCtx<Ping>) {}
}

fn run_all_to_all(n: u32) -> u64 {
    let everyone: Vec<NodeId> = (0..n).map(NodeId).collect();
    let mut sched = Scheduler::<AllToAll>::new(0);
    for &id in &everyone {
        sched.add_node(AllToAll { id, peers: everyone.clone(), sent: false }).unwrap();
    }
    let mut adv = CountingAdversary::new(NoOpAdversary);
    sched.run(&mut adv, 10_000).unwrap();
    adv.count
}

#[test]
fn all_to_all_is_quadratic() {
    assert_eq!(run_all_to_all(4), 4 * 3);
    assert_eq!(run_all_to_all(8), 8 * 7);
    assert_eq!(run_all_to_all(16), 16 * 15);
}

// ---------------------------------------------------------------------
// CAP registers
// ---------------------------------------------------------------------

#[test]
fn ap_returns_stale_under_partition() {
    let mut sched = Scheduler::<ApRegister>::new(0);
    sched.add_node(ApRegister::new(NodeId(0), NodeId(1), Some(42), None)).unwrap();
    sched.add_node(ApRegister::new(NodeId(1), NodeId(0), None, Some(5))).unwrap();
    let mut adv = OnePartitionAdversary { partition_at: 0, heal_at: 100 };
    sched.run(&mut adv, 200).unwrap();
    let r1 = sched.node(NodeId(1)).unwrap();
    assert_eq!(r1.last_read, Some(0));
}

#[test]
fn cp_blocks_read_under_partition() {
    let mut sched = Scheduler::<CpRegister>::new(0);
    sched.add_node(CpRegister::new(NodeId(0), NodeId(1), Some(42), None)).unwrap();
    sched.add_node(CpRegister::new(NodeId(1), NodeId(0), None, Some(5))).unwrap();
    let mut adv = OnePartitionAdversary { partition_at: 0, heal_at: u64::MAX };
    sched.run(&mut adv, 200).unwrap();
    let r1 = sched.node(NodeId(1)).unwrap();
    assert!(r1.last_read.is_none());
    assert!(r1.pending_read);
}

#[test]
fn cp_returns_correct_under_no_partition() {
    let mut sched = Scheduler::<CpRegister>::new(0);
    sched.add_node(CpRegister::new(NodeId(0), NodeId(1), Some(42), None)).unwrap();
    sched.add_node(CpRegister::new(NodeId(1), NodeId(0), None, Some(10))).unwrap();
    let mut adv = OnePartitionAdversary { partition_at: 1000, heal_at: 1001 };
    sched.run(&mut adv, 200).unwrap();
    let r1 = sched.node(NodeId(1)).unwrap();
    assert_eq!(r1.last_read, Some(42));
}

// ---------------------------------------------------------------------
// Bracha reliable broadcast
// ---------------------------------------------------------------------

fn build_bracha(n: u32, f: usize, initial: Option<u32>) -> Scheduler<BrachaNode<u32>> {
    let everyone: Vec<NodeId> = (0..n).map(NodeId).collect();
    let mut sched = Scheduler::<BrachaNode<u32>>::new(0);
    for (i, &id) in everyone.iter().enumerate() {
        let init = if i == 0 { initial } else { None };
        sched.add_node(BrachaNode::new(id, everyone.clone(), n as usize, f, init)).unwrap();
    }
    sched
}

#[test]
fn bracha_delivers_under_no_op() {
    let mut sched = build_bracha(4, 1, Some(7));
    let mut adv = NoOpAdversary;
    sched.run(&mut adv, 1000).unwrap();
    for id in [NodeId(0), NodeId(1), NodeId(2), NodeId(3)] {
        let n = sched.node(id).unwrap();
        assert!(n.delivered.contains(&(NodeId(0), 7)));
    }
}

// ---------------------------------------------------------------------
// Failure detector
// ---------------------------------------------------------------------

fn build_detectors(n: u32) -> Scheduler<HeartbeatNode> {
    let everyone: Vec<NodeId> = (0..n).map(NodeId).collect();
    let mut sched = Scheduler::<HeartbeatNode>::new(0);
    for &id in &everyone {
        sched.add_node(HeartbeatNode::new(id, everyone.clone(), 5, 1)).unwrap();
    }
    sched
}

#[test]
fn no_one_suspected_under_no_op() {
    let mut sched = build_detectors(3);
    let mut adv = NoOpAdversary;
    let _ = sched.run(&mut adv, 200);
    for id in [NodeId(0), NodeId(1), NodeId(2)] {
        let n = sched.node(id).unwrap();
        assert!(n.suspected.is_empty(), "node {:?} suspects someone", id);
    }
}

#[test]
fn crashed_node_is_eventually_suspected() {
    let mut sched = build_detectors(3);
    sched.node_mut(NodeId(1)).unwrap().crashed = true;
    let mut adv = NoOpAdversary;
    let _ = sched.run(&mut adv, 200);
    let n0 = sched.node(NodeId(0)).unwrap();
    assert!(n0.suspected.contains(&NodeId(1)));
}

// ---------------------------------------------------------------------
// Randomised and coin-based binary agreement
// ---------------------------------------------------------------------

fn build_ben_or(inputs: &[bool]) -> Scheduler<BenOrNode> {
    let n = inputs.len();
    let f = (n - 1) / 2;
    let everyone = ids(n);
    let mut sched = Scheduler::<BenOrNode>::new(0);
    for (i, &id) in everyone.iter().enumerate() {
        sched.add_node(BenOrNode::new(id, everyone.clone(), n, f, inputs[i])).unwrap();
    }
    sched
}

#[test]
fn validity_all_true() {
    let mut sched = build_ben_or(&[true, true, true, true]);
    let mut adv = NoOpAdversary;
    sched.run(&mut adv, 1000).unwrap();
    for id in [NodeId(0), NodeId(1), NodeId(2), NodeId(3)] {
        assert_eq!(sched.node(id).unwrap().decision, Some(true));
    }
}

#[test]
fn validity_all_false() {
    let mut sched = build_ben_or(&[false, false, false, false]);
    let mut adv = NoOpAdversary;
    sched.run(&mut adv, 1000).unwrap();
    for id in [NodeId(0), NodeId(1), NodeId(2), NodeId(3)] {
        assert_eq!(sched.node(id).unwrap().decision, Some(false));
    }
}

fn deterministic_coin(_r: u32) -> bool {
    true
}

fn build_rabin<F: Fn(u32) -> bool + Copy>(inputs: &[bool], coin: F) -> Scheduler<RabinNode<F>> {
    let n = inputs.len();
    let f = (n - 1) / 3;
    let everyone = ids(n);
    let mut sched = Scheduler::<RabinNode<F>>::new(0);
    for (i, &id) in everyone.iter().enumerate() {
        sched.add_node(RabinNode::new(id, everyone.clone(), n, f, inputs[i], coin)).unwrap();
    }
    sched
}

#[test]
fn lib_validity_all_true() {
    let mut sched = build_rabin(&[true, true, true, true], deterministic_coin);
    let mut adv = NoOpAdversary;
    sched.run(&mut adv, 1000).unwrap();
    for id in [NodeId(0), NodeId(1), NodeId(2), NodeId(3)] {
        assert_eq!(sched.node(id).unwrap().decision, Some(true));
    }
}

#[test]
fn lib_validity_all_false() {
    let mut sched = build_rabin(&[false, false, false, false], deterministic_coin);
    let mut adv = NoOpAdversary;
    sched.run(&mut adv, 1000).unwrap();
    for id in [NodeId(0), NodeId(1), NodeId(2), NodeId(3)] {
        assert_eq!(sched.node(id).unwrap().decision, Some(false));
    }
}

fn always_true(_r: u32) -> bool {
    true
}

fn build_bracha_aba<F: Fn(u32) -> bool + Copy>(inputs: &[bool], coin: F) -> Scheduler<BrachaAbaNode<F>> {
    let n = inputs.len();
    let f = (n - 1) / 3;
    let everyone = ids(n);
    let mut sched = Scheduler::<BrachaAbaNode<F>>::new(0);
    for (i, &id) in everyone.iter().enumerate() {
        sched.add_node(BrachaAbaNode::new(id, everyone.clone(), n, f, inputs[i], coin)).unwrap();
    }
    sched
}

#[test]
fn validity_all_true_with_matching_coin() {
    let mut sched = build_bracha_aba(&[true, true, true, true], always_true);
    let mut adv = NoOpAdversary;
    sched.run(&mut adv, 1000).unwrap();
    for id in [NodeId(0), NodeId(1), NodeId(2), NodeId(3)] {
        assert_eq!(sched.node(id).unwrap().decision, Some(true));
    }
}

fn build_mmr<F: Fn(u32) -> bool + Copy>(inputs: &[bool], coin: F) -> Scheduler<MmrNode<F>> {
    let n = inputs.len();
    let f = (n - 1) / 3;
    let everyone = ids(n);
    let mut sched = Scheduler::<MmrNode<F>>::new(0);
    for (i, &id) in everyone.iter().enumerate() {
        sched.add_node(MmrNode::new(id, everyone.clone(), n, f, inputs[i], coin)).unwrap();
    }
    sched
}

#[test]
fn lib_validity_all_true_with_matching_coin() {
    let mut sched = build_mmr(&[true, true, true, true], always_true);
    let mut adv = NoOpAdversary;
    sched.run(&mut adv, 1000).unwrap();
    for id in [NodeId(0), NodeId(1), NodeId(2), NodeId(3)] {
        assert_eq!(sched.node(id).unwrap().decision, Some(true));
    }
}

// ---------------------------------------------------------------------
// Two-phase commit
// ---------------------------------------------------------------------

fn build_tpc(votes: &[bool], crash_coord: bool) -> Scheduler<TpcNode> {
    let n = votes.len();
    let coord = NodeId(0);
    let participants: Vec<NodeId> = (1..=n).map(|i| NodeId(u32::try_from(i).unwrap())).collect();
    let mut sched = Scheduler::<TpcNode>::new(0);
    sched.add_node(TpcNode::coordinator(coord, participants.clone(), crash_coord)).unwrap();
    for (i, &p) in participants.iter().enumerate() {
        sched.add_node(TpcNode::participant(p, coord, votes[i])).unwrap();
    }
    sched
}

#[test]
fn happy_path_commits() {
    let mut sched = build_tpc(&[true, true, true], false);
    let mut adv = NoOpAdversary;
    sched.run(&mut adv, 100).unwrap();
    for i in 0..4 {
        assert_eq!(sched.node(NodeId(i)).unwrap().state, State::Committed);
    }
}

#[test]
fn one_no_aborts_all() {
    let mut sched = build_tpc(&[true, false, true], false);
    let mut adv = NoOpAdversary;
    sched.run(&mut adv, 100).unwrap();
    for i in 0..4 {
        assert_eq!(sched.node(NodeId(i)).unwrap().state, State::Aborted);
    }
}

#[test]
fn coordinator_crash_blocks_participants() {
    let mut sched = build_tpc(&[true, true, true], true);
    let mut adv = NoOpAdversary;
    sched.run(&mut adv, 100).unwrap();
    for i in 1..=3 {
        assert_eq!(sched.node(NodeId(i)).unwrap().state, State::Prepared);
    }
}

// ---------------------------------------------------------------------
// Replication protocols
// ---------------------------------------------------------------------

#[test]
fn primary_commits_via_quorum() {
    let everyone = vec![NodeId(0), NodeId(1), NodeId(2)];
    let mut sched = Scheduler::<VrNode>::new(0);
    sched.add_node(VrNode::new(NodeId(0), everyone.clone(), 0, vec![10, 20, 30])).unwrap();
    for &id in &everyone[1..] {
        sched.add_node(VrNode::new(id, everyone.clone(), 0, vec![])).unwrap();
    }
    let mut adv = NoOpAdversary;
    sched.run(&mut adv, 1000).unwrap();
    let primary = sched.node(NodeId(0)).unwrap();
    assert_eq!(primary.commit_num, 3);
    assert_eq!(primary.log, vec![10, 20, 30]);
    for id in [NodeId(1), NodeId(2)] {
        let backup = sched.node(id).unwrap();
        assert_eq!(backup.log, vec![10, 20, 30]);
    }
}

#[test]
fn single_proposer_decides() {
    let everyone = vec![NodeId(0), NodeId(1), NodeId(2)];
    let mut sched = Scheduler::<SynodNode>::new(0);
    sched.add_node(SynodNode::new(NodeId(0), everyone.clone(), 42, true, 1)).unwrap();
    for &id in &everyone[1..] {
        sched.add_node(SynodNode::new(id, everyone.clone(), 0, false, 0)).unwrap();
    }
    let mut adv = NoOpAdversary;
    sched.run(&mut adv, 1000).unwrap();
    let proposer = sched.node(NodeId(0)).unwrap();
    assert_eq!(proposer.decision, Some(42));
}

#[test]
fn three_node_log_replicates() {
    let everyone = vec![NodeId(0), NodeId(1), NodeId(2)];
    let mut sched = Scheduler::<MpNode>::new(0);
    sched.add_node(MpNode::new(NodeId(0), everyone.clone(), true, vec![10, 20, 30], 1)).unwrap();
    for &id in &everyone[1..] {
        sched.add_node(MpNode::new(id, everyone.clone(), false, vec![], 0)).unwrap();
    }
    let mut adv = NoOpAdversary;
    sched.run(&mut adv, 1000).unwrap();
    let leader = sched.node(NodeId(0)).unwrap();
    assert_eq!(leader.commit_index, 3);
    let leader_ops: Vec<u32> = leader.log.iter().filter_map(|x| x.map(|(_, op)| op)).collect();
    assert_eq!(leader_ops, vec![10, 20, 30]);
    for id in [NodeId(1), NodeId(2)] {
        let r = sched.node(id).unwrap();
        let ops: Vec<u32> = r.log.iter().filter_map(|x| x.map(|(_, op)| op)).collect();
        assert_eq!(ops, vec![10, 20, 30]);
    }
}

#[test]
fn three_replicas_each_propose() {
    let everyone = vec![NodeId(0), NodeId(1), NodeId(2)];
    let mut sched = Scheduler::<MenciusNode>::new(0);
    sched.add_node(MenciusNode::new(NodeId(0), everyone.clone(), 0, vec![10, 20])).unwrap();
    sched.add_node(MenciusNode::new(NodeId(1), everyone.clone(), 1, vec![100, 200])).unwrap();
    sched.add_node(MenciusNode::new(NodeId(2), everyone.clone(), 2, vec![1000, 2000])).unwrap();
    let mut adv = NoOpAdversary;
    sched.run(&mut adv, 1000).unwrap();
    for id in [NodeId(0), NodeId(1), NodeId(2)] {
        let n = sched.node(id).unwrap();
        assert!(n.log.values().any(|&v| v == 10));
        assert!(n.log.values().any(|&v| v == 100));
        assert!(n.log.values().any(|&v| v == 1000));
    }
}

#[test]
fn three_replicas_replicate_log() {
    let everyone = vec![NodeId(0), NodeId(1), NodeId(2)];
    let mut sched = Scheduler::<RaftNode>::new(0);
    sched.add_node(RaftNode::new(NodeId(0), everyone.clone(), true, vec![10, 20, 30])).unwrap();
    for &id in &everyone[1..] {
        sched.add_node(RaftNode::new(id, everyone.clone(), false, vec![])).unwrap();
    }
    let mut adv = NoOpAdversary;
    sched.run(&mut adv, 1000).unwrap();
    let leader = sched.node(NodeId(0)).unwrap();
    assert_eq!(leader.log.len(), 3);
    assert_eq!(leader.commit_index, 3);
    for id in [NodeId(1), NodeId(2)] {
        let f = sched.node(id).unwrap();
        assert_eq!(f.log.len(), 3);
    }
}

#[test]
fn three_replicas_zab() {
    let everyone = vec![NodeId(0), NodeId(1), NodeId(2)];
    let mut sched = Scheduler::<ZabNode>::new(0);
    sched.add_node(ZabNode::new(NodeId(0), everyone.clone(), true, 1, vec![10, 20, 30])).unwrap();
    for &id in &everyone[1..] {
        sched.add_node(ZabNode::new(id, everyone.clone(), false, 1, vec![])).unwrap();
    }
    let mut adv = NoOpAdversary;
    sched.run(&mut adv, 1000).unwrap();
    let leader = sched.node(NodeId(0)).unwrap();
    assert_eq!(leader.log.len(), 3);
    for id in [NodeId(1), NodeId(2)] {
        let f = sched.node(id).unwrap();
        assert_eq!(f.log.len(), 3);
    }
}

#[test]
fn three_chain_propagates_writes() {
    let chain = vec![NodeId(0), NodeId(1), NodeId(2)];
    let n = chain.len();
    let mut sched = Scheduler::<ChainNode>::new(0);
    for (i, &id) in chain.iter().enumerate() {
        let next = if i + 1 < n { Some(chain[i + 1]) } else { None };
        let initial = if i == 0 { vec![(1, 100), (2, 200), (3, 300)] } else { vec![] };
        sched.add_node(ChainNode::new(id, i, n, next, initial)).unwrap();
    }
    let mut adv = NoOpAdversary;
    sched.run(&mut adv, 1000).unwrap();
    for &id in &chain {
        let r = sched.node(id).unwrap();
        assert_eq!(r.store.get(&1), Some(&100));
        assert_eq!(r.store.get(&2), Some(&200));
        assert_eq!(r.store.get(&3), Some(&300));
    }
}

#[test]
fn four_replicas_pbft_commit() {
    let everyone = vec![NodeId(0), NodeId(1), NodeId(2), NodeId(3)];
    let mut sched = Scheduler::<PbftNode>::new(0);
    sched.add_node(PbftNode::new(NodeId(0), everyone.clone(), 4, 1, true, vec![10, 20, 30])).unwrap();
    for &id in &everyone[1..] {
        sched.add_node(PbftNode::new(id, everyone.clone(), 4, 1, false, vec![])).unwrap();
    }
    let mut adv = NoOpAdversary;
    sched.run(&mut adv, 5000).unwrap();
    for id in &everyone {
        let r = sched.node(*id).unwrap();
        assert_eq!(r.log.len(), 3, "node {:?} log {:?}", id, r.log);
    }
}
