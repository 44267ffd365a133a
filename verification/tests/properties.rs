//! Concrete instances of the library's laws, edge cases of its
//! formulas, and checks that the calls into outside crates compute
//! what their contracts name.

use std::collections::hash_map::DefaultHasher;
use std::collections::BTreeSet;
use std::hash::{Hash, Hasher};

use protocols::bracha_rb::{self, BrachaNode};
use protocols::byzantine_generals::{self, Decision};
use protocols::coins::{drand_coin, hash_round_to_bit, low_bit, threshold_bls_coin, vdf_coin, vrf_coin};
use protocols::collections::{KeyMap, KeySet, RoundLog, Tally};
use protocols::craq::KeyState;
use protocols::crypto::{digest_eq, mock_sign, mock_verify, mock_vrf_eval, sha256, MockThresholdAccumulator};
use protocols::dolev_reischuk::CountingAdversary;
use protocols::failure_models::{CrashStopAdversary, EquivocatingAdversary};
use protocols::fast_paxos::{classic_quorum, fast_quorum, intersection_lower_bound};
use protocols::net::{Adversary, Envelope, NoOpAdversary, NodeId, SimRng, StepCtx};
use protocols::paxos_synod::{self, SynodNode};
use protocols::quorum::ThresholdQuorum;
use protocols::raft::{self, RaftNode};
use protocols::securering::Ring;
use protocols::smr::{Counter, CounterOp, Replica};
use protocols::spinning::primary_for_round;
use protocols::system_models::{AsynchronousAdversary, PartiallySynchronousAdversary, SynchronousAdversary};
use protocols::trinc::TrInc;
use protocols::upright;

fn ctx<M>(now: u64) -> StepCtx<M> {
    StepCtx::new(now, SimRng::new(0))
}

fn env<M>(from: u32, to: u32, msg: M) -> Envelope<M> {
    Envelope { from: NodeId(from), to: NodeId(to), sent_at: 0, msg }
}

// ---------------------------------------------------------------------
// Outside crates
// ---------------------------------------------------------------------

#[test]
fn sha256_of_abc_is_the_standard_digest() {
    let d = sha256(b"abc");
    let hex: String = d.iter().map(|b| format!("{:02x}", b)).collect();
    assert_eq!(hex, "ba7816bf8f01cfea414140de5dae2223b00361a396177a9cb410ff61f20015ad");
}

#[test]
fn vrf_is_the_le_prefix_of_the_digest() {
    assert_eq!(mock_vrf_eval(42, b"slot-1"), 4066588698485466807);
    assert_eq!(mock_vrf_eval(42, b"slot-2"), 16194486821016364594);
    assert_eq!(mock_vrf_eval(7, b"slot-1"), 8400162534046479041);
}

#[test]
fn digest_equality_is_bytewise() {
    let a = sha256(b"x");
    let mut b = a;
    assert!(digest_eq(&a, &b));
    b[31] ^= 1;
    assert!(!digest_eq(&a, &b));
}

#[test]
fn coins_use_their_salts() {
    for r in 0..20 {
        assert_eq!(threshold_bls_coin(r), hash_round_to_bit(r, b"threshold-bls"));
        assert_eq!(vrf_coin(r), hash_round_to_bit(r, b"vrf"));
        assert_eq!(vdf_coin(r), hash_round_to_bit(r, b"vdf"));
        assert_eq!(drand_coin(r), hash_round_to_bit(r, b"drand"));
    }
}

#[test]
fn coins_vary_over_rounds() {
    let ones = (0..64).filter(|&r| vrf_coin(r)).count();
    assert!(ones > 0 && ones < 64);
}

#[test]
fn coins_match_the_default_hasher() {
    for r in 0..64u32 {
        let mut h = DefaultHasher::new();
        b"vrf"[..].hash(&mut h);
        r.hash(&mut h);
        assert_eq!(vrf_coin(r), h.finish() & 1 == 1);
        let mut h = DefaultHasher::new();
        b"threshold-bls"[..].hash(&mut h);
        r.hash(&mut h);
        assert_eq!(threshold_bls_coin(r), h.finish() & 1 == 1);
    }
}

#[test]
fn low_bit_is_parity() {
    assert!(!low_bit(0));
    assert!(low_bit(1));
    assert!(!low_bit(2));
    assert!(low_bit(u64::MAX));
}

#[test]
fn rng_draws_stay_in_range() {
    let mut rng = SimRng::new(7);
    for _ in 0..200 {
        let x = rng.range_inclusive(3, 9);
        assert!((3..=9).contains(&x));
    }
    assert_eq!(rng.range_inclusive(5, 5), 5);
    let mut distinct: Vec<u64> = (0..100).map(|_| rng.range_inclusive(0, 3)).collect();
    distinct.sort();
    distinct.dedup();
    assert_eq!(distinct, vec![0, 1, 2, 3]);
    let mut a = SimRng::new(11);
    let mut b = SimRng::new(11);
    let mut c = SimRng::new(12);
    let xs: Vec<u64> = (0..8).map(|_| a.range_inclusive(0, u64::MAX)).collect();
    let ys: Vec<u64> = (0..8).map(|_| b.range_inclusive(0, u64::MAX)).collect();
    let zs: Vec<u64> = (0..8).map(|_| c.range_inclusive(0, u64::MAX)).collect();
    assert_eq!(xs, ys);
    assert_ne!(xs, zs);
    let heads = (0..200).filter(|_| rng.coin()).count();
    assert!(heads > 0 && heads < 200);
}

// ---------------------------------------------------------------------
// Signatures and thresholds
// ---------------------------------------------------------------------

#[test]
fn signature_binds_signer_and_message() {
    let sig = mock_sign(NodeId(3), b"m");
    assert_eq!(sig.signer, NodeId(3));
    assert_eq!(sig.digest, sha256(b"m"));
    assert!(mock_verify(&sig, NodeId(3), b"m"));
    assert!(!mock_verify(&sig, NodeId(3), b"n"));
}

#[test]
fn threshold_counts_distinct_signers_only() {
    let mut acc = MockThresholdAccumulator::new(2);
    acc.add(mock_sign(NodeId(0), b"v"));
    acc.add(mock_sign(NodeId(0), b"v"));
    assert!(acc.combine(&sha256(b"v")).is_none());
    acc.add(mock_sign(NodeId(1), b"v"));
    let t = acc.combine(&sha256(b"v")).expect("two signers");
    assert_eq!(t.signers.len(), 2);
    assert!(t.signers.contains(&NodeId(0)) && t.signers.contains(&NodeId(1)));
    assert!(!t.verify(b"w", 2));
}

#[test]
fn threshold_signers_are_listed_in_order() {
    let mut acc = MockThresholdAccumulator::new(3);
    for i in [3, 1, 2, 1] {
        acc.add(mock_sign(NodeId(i), b"v"));
    }
    let t = acc.combine(&sha256(b"v")).expect("three signers");
    assert_eq!(t.signers.len(), 3);
    assert_eq!((t.signers.get(0), t.signers.get(1), t.signers.get(2)), (NodeId(1), NodeId(2), NodeId(3)));
}

#[test]
fn threshold_zero_combines_without_partials() {
    let acc = MockThresholdAccumulator::new(0);
    let t = acc.combine(&sha256(b"nothing")).expect("zero signers suffice");
    assert!(t.signers.is_empty());
    assert_eq!(t.digest, sha256(b"nothing"));
}

// ---------------------------------------------------------------------
// Quorums
// ---------------------------------------------------------------------

fn set(ids: &[u32]) -> BTreeSet<NodeId> {
    ids.iter().copied().map(NodeId).collect()
}

#[test]
fn any_two_threshold_quorums_share_the_bound() {
    let n = 7;
    let q = ThresholdQuorum::new(n, 5);
    let bound = q.intersection_lower_bound();
    assert_eq!(bound, 3);
    let all: Vec<u32> = (0..n as u32).collect();
    for a in 0..(1u32 << n) {
        let qa: Vec<u32> = all.iter().copied().filter(|i| a & (1 << i) != 0).collect();
        if !q.is_quorum(&set(&qa)) {
            continue;
        }
        for b in 0..(1u32 << n) {
            let qb: Vec<u32> = all.iter().copied().filter(|i| b & (1 << i) != 0).collect();
            if q.is_quorum(&set(&qb)) {
                let common = qa.iter().filter(|x| qb.contains(x)).count();
                assert!(common >= bound);
            }
        }
    }
}

#[test]
fn classic_and_fast_quorums_meet() {
    let (n, f) = (7usize, 2usize);
    let bound = intersection_lower_bound(n, f);
    let classic: Vec<u32> = (0..classic_quorum(n) as u32).collect();
    let fast: Vec<u32> = (n as u32 - fast_quorum(n, f) as u32..n as u32).collect();
    let common = classic.iter().filter(|x| fast.contains(x)).count();
    assert_eq!(common, bound);
}

#[test]
fn upright_quorums_meet() {
    for u in 0..5 {
        for r in 0..5 {
            let n = upright::min_n(u, r);
            let q = upright::quorum(u, r);
            assert_eq!(2 * q - n, r + 1);
        }
    }
}

#[test]
fn rotation_gives_each_replica_one_round_in_n() {
    let n = 5;
    for start in 0..20 {
        let mut seen: Vec<u32> = (start..start + n).map(|r| primary_for_round(r, n)).collect();
        seen.sort();
        assert_eq!(seen, (0..n).collect::<Vec<u32>>());
        assert_eq!(primary_for_round(start + n, n), primary_for_round(start, n));
    }
}

#[test]
fn ring_successor_of_a_stranger_is_none() {
    let r = Ring::new(vec![NodeId(0), NodeId(1)]);
    assert_eq!(r.next(NodeId(1)), Some(NodeId(0)));
    assert_eq!(r.next(NodeId(9)), None);
}

// ---------------------------------------------------------------------
// State-machine replication
// ---------------------------------------------------------------------

#[test]
fn same_log_same_state() {
    let ops = [CounterOp::Add(3), CounterOp::Mul(4), CounterOp::Read, CounterOp::Add(u64::MAX)];
    let mut a = Replica::new(Counter::default());
    let mut b = Replica::new(Counter::default());
    let mut outs = Vec::new();
    for op in ops {
        outs.push(a.commit(op));
        b.commit(op);
    }
    assert_eq!(a.state(), b.state());
    assert_eq!(a.state().value, 11);
    assert_eq!(outs, vec![3, 12, 12, 11]);
    assert_eq!(a.outputs(), &outs[..]);
    assert_eq!(a.log().len(), 4);
}

#[test]
fn replaying_in_two_parts_is_replaying_whole() {
    let ops = [CounterOp::Add(2), CounterOp::Mul(5), CounterOp::Add(1)];
    let mut whole = Replica::new(Counter::default());
    for op in ops {
        whole.commit(op);
    }
    let mut first = Replica::new(Counter::default());
    for op in &ops[..1] {
        first.commit(*op);
    }
    let mut second = Replica::new(first.state().clone());
    for op in &ops[1..] {
        second.commit(*op);
    }
    assert_eq!(whole.state(), second.state());
}

// ---------------------------------------------------------------------
// Agreement and acceptor invariants
// ---------------------------------------------------------------------

#[test]
fn om1_lieutenants_agree_under_any_equivocation() {
    let everyone = vec![NodeId(0), NodeId(1), NodeId(2), NodeId(3)];
    for mask in 0..8u32 {
        let targets: Vec<NodeId> = (1..4).filter(|i| mask & (1 << (i - 1)) != 0).map(NodeId).collect();
        let mut nodes = vec![byzantine_generals::General::commander(
            NodeId(0),
            everyone.clone(),
            Decision::Attack,
            Some((Decision::Retreat, targets)),
        )];
        for &id in &everyone[1..] {
            nodes.push(byzantine_generals::General::lieutenant(id, everyone.clone()));
        }
        let mut queue = Vec::new();
        let mut c = ctx(1);
        nodes[0].on_tick(&mut c);
        queue.extend(c.outbox);
        let mut i = 0;
        while i < queue.len() {
            let e: Envelope<byzantine_generals::Msg> = queue[i].clone();
            let mut c = ctx(2);
            nodes[e.to.0 as usize].on_receive(e, &mut c);
            queue.extend(c.outbox);
            i += 1;
        }
        let d = nodes[1].decision;
        assert!(d.is_some());
        assert_eq!(nodes[2].decision, d);
        assert_eq!(nodes[3].decision, d);
    }
}

#[test]
fn synod_promise_never_goes_back() {
    let mut a = SynodNode::new(NodeId(1), vec![NodeId(0), NodeId(1), NodeId(2)], 0, false, 0);
    let mut c = ctx(1);
    a.on_receive(env(0, 1, paxos_synod::Msg::Prepare { b: 5 }), &mut c);
    assert_eq!(a.promised, Some(5));
    a.on_receive(env(2, 1, paxos_synod::Msg::Prepare { b: 3 }), &mut c);
    assert_eq!(a.promised, Some(5));
    a.on_receive(env(2, 1, paxos_synod::Msg::Accept { b: 4, v: 9 }), &mut c);
    assert_eq!(a.promised, Some(5));
    assert_eq!(a.accepted, None);
    a.on_receive(env(0, 1, paxos_synod::Msg::Accept { b: 5, v: 7 }), &mut c);
    assert_eq!(a.accepted, Some((5, 7)));
    assert_eq!(c.outbox.len(), 2);
}

#[test]
fn raft_term_never_goes_back() {
    let mut f = RaftNode::new(NodeId(1), vec![NodeId(0), NodeId(1), NodeId(2)], false, vec![]);
    let mut c = ctx(1);
    let ae = |term: u32, entries: Vec<(u32, u32)>, leader_commit: u32| raft::Msg::AppendEntries {
        term,
        prev_index: 0,
        prev_term: 0,
        entries,
        leader_commit,
    };
    f.on_receive(env(0, 1, ae(4, vec![(4, 10), (4, 20)], 2)), &mut c);
    assert_eq!(f.current_term, 4);
    assert_eq!(f.commit_index, 2);
    f.on_receive(env(0, 1, ae(2, vec![], 0)), &mut c);
    assert_eq!(f.current_term, 4);
    assert_eq!(f.log.len(), 2);
    f.on_receive(env(0, 1, ae(4, vec![(4, 10)], 1)), &mut c);
    assert_eq!(f.commit_index, 2);
}

#[test]
fn bracha_delivery_needs_two_f_plus_one_readies() {
    let everyone = vec![NodeId(0), NodeId(1), NodeId(2), NodeId(3)];
    let mut node: BrachaNode<u32> = BrachaNode::new(NodeId(3), everyone, 4, 1, None);
    let mut c = ctx(1);
    let ready = |from: u32| env(from, 3, bracha_rb::Msg::Ready { sender: NodeId(0), content: 7u32 });
    node.on_receive(ready(0), &mut c);
    assert_eq!(c.outbox.len(), 0);
    node.on_receive(ready(1), &mut c);
    assert_eq!(c.outbox.len(), 4);
    assert!(!node.delivered.contains(&(NodeId(0), 7)));
    node.on_receive(ready(1), &mut c);
    assert!(!node.delivered.contains(&(NodeId(0), 7)));
    node.on_receive(ready(2), &mut c);
    assert!(node.delivered.contains(&(NodeId(0), 7)));
    assert_eq!(c.outbox.len(), 4);
}

#[test]
fn trinc_counters_strictly_increase() {
    let mut t = TrInc::default();
    let mut last = 0;
    for v in 0..10 {
        let (c, value) = t.attest(v);
        assert_eq!(value, v);
        assert_eq!(c, last + 1);
        last = c;
    }
}

#[test]
fn craq_promote_then_read() {
    let mut s = KeyState { clean: None, dirty: vec![] };
    s.add_dirty(1, 11);
    assert_eq!(s.local_read(), None);
    s.promote(1);
    assert_eq!(s.local_read(), Some(11));
}

// ---------------------------------------------------------------------
// Adversaries
// ---------------------------------------------------------------------

#[test]
fn timing_adversaries_respect_their_bounds() {
    let mut rng = SimRng::new(3);
    let mut s = SynchronousAdversary::new(4);
    assert_eq!(Adversary::<u8>::intercept(&mut s, env(0, 1, 9u8), 10, &mut rng)[0].0, 14);
    let mut a = AsynchronousAdversary::new(0);
    assert_eq!(Adversary::<u8>::intercept(&mut a, env(0, 1, 9u8), 10, &mut rng)[0].0, 11);
    let mut p = PartiallySynchronousAdversary::new(20, 2, 6);
    for now in 0..40 {
        let out = Adversary::<u8>::intercept(&mut p, env(0, 1, 9u8), now, &mut rng);
        assert_eq!(out.len(), 1);
        if now < 20 {
            assert!(out[0].0 >= now + 1 && out[0].0 <= now + 6);
        } else {
            assert_eq!(out[0].0, now + 2);
        }
    }
}

#[test]
fn counting_and_crash_stop_compose() {
    let mut crash_at = KeyMap::new();
    crash_at.insert(NodeId(0), 5);
    let mut adv = CountingAdversary::new(CrashStopAdversary::new(crash_at, NoOpAdversary));
    let mut rng = SimRng::new(0);
    assert_eq!(adv.intercept(env(0, 1, 1u8), 4, &mut rng).len(), 1);
    assert_eq!(adv.intercept(env(0, 1, 1u8), 5, &mut rng).len(), 0);
    assert_eq!(adv.intercept(env(1, 0, 1u8), 9, &mut rng).len(), 1);
    assert_eq!(adv.count, 3);
}

#[test]
fn equivocation_rewrites_only_targeted_messages() {
    let mut byz = KeySet::new();
    byz.insert(NodeId(0));
    let mut to = KeySet::new();
    to.insert(NodeId(2));
    let mut adv = EquivocatingAdversary::new(byz, to, |e: &Envelope<u32>| e.msg + 100, NoOpAdversary);
    let mut rng = SimRng::new(0);
    assert_eq!(adv.intercept(env(0, 2, 1u32), 0, &mut rng)[0].1.msg, 101);
    assert_eq!(adv.intercept(env(0, 1, 1u32), 0, &mut rng)[0].1.msg, 1);
    assert_eq!(adv.intercept(env(1, 2, 1u32), 0, &mut rng)[0].1.msg, 1);
}

// ---------------------------------------------------------------------
// Collections
// ---------------------------------------------------------------------

#[test]
fn key_collections_behave_as_sets_and_maps() {
    let mut s = KeySet::new();
    assert!(s.is_empty());
    assert!(s.insert(3u32));
    assert!(!s.insert(3u32));
    assert_eq!(s.len(), 1);
    s.clear();
    assert!(!s.contains(&3));
    let mut m = KeyMap::new();
    m.insert(1u32, 10u32);
    m.insert(1u32, 11u32);
    m.insert(2u32, 20u32);
    assert_eq!(m.len(), 2);
    assert_eq!(m.get(&1), Some(&11));
    assert_eq!(m.get(&3), None);
    let mut t = Tally::new();
    assert_eq!(t.add(5u32, NodeId(0)), 1);
    assert_eq!(t.add(5u32, NodeId(0)), 1);
    assert_eq!(t.add(5u32, NodeId(1)), 2);
    assert_eq!(t.count(&6), 0);
    let mut log = RoundLog::new();
    log.push(1, true);
    log.push(1, false);
    assert_eq!(log.get(1), vec![true, false]);
    assert!(log.get(2).is_empty());
}
