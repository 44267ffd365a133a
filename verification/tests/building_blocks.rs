//! Quorum arithmetic, cryptographic stand-ins, coins, configuration
//! types and the small protocol helpers.

use std::collections::BTreeSet;

use protocols::aardvark::PerfMonitor;
use protocols::atlas;
use protocols::bft2f::{self, Regime};
use protocols::bft_smart::Component;
use protocols::caspaxos::{CasFn, CasPaxosAcceptor, PrepareReply};
use protocols::cheap_paxos::Config;
use protocols::coins::{drand_coin, threshold_bls_coin, vdf_coin, vrf_coin};
use protocols::compartmentalized_paxos::Role;
use protocols::craq::KeyState;
use protocols::crypto::{mock_sign, mock_verify, mock_vrf_eval, sha256, MockThresholdAccumulator};
use protocols::diembft::Version;
use protocols::disk_paxos::{Block, SharedDisks};
use protocols::epaxos;
use protocols::fast_paxos::{classic_quorum, fast_quorum, intersection_lower_bound};
use protocols::flexible_paxos::FlexibleQuorums;
use protocols::generalized_paxos::{Commutes, KvWrite};
use protocols::hotstuff::{self, Phase, QuorumCert};
use protocols::hotstuff2::PHASES;
use protocols::hq::Path;
use protocols::jolteon::{commit_chain_length, ChainFamily};
use protocols::minbft;
use protocols::net::NodeId;
use protocols::prime::PreOrder;
use protocols::qu;
use protocols::quorum::ThresholdQuorum;
use protocols::rampart::Layer;
use protocols::securering::Ring;
use protocols::spinning::primary_for_round;
use protocols::steward::{global_quorum, local_quorum, total_replicas};
use protocols::streamlet::FINALITY_CHAIN_LENGTH;
use protocols::tendermint::Step;
use protocols::trinc::TrInc;
use protocols::truetime::TrueTime;
use protocols::upright;
use protocols::vertical_paxos::Configuration;
use protocols::vr_revisited::{PersistenceRecord, VrStatus};
use protocols::zyzzyva::{classify, ClientDecision};

// ---------------------------------------------------------------------
// Quorum systems
// ---------------------------------------------------------------------

#[test]
fn three_f_plus_one_is_byzantine_resilient() {
    for f in 1..=10 {
        let n = 3 * f + 1;
        let q = ThresholdQuorum::new(n, 2 * f + 1);
        assert!(q.is_byzantine_resilient(f));
        assert_eq!(q.intersection_lower_bound(), f + 1);
    }
}

#[test]
fn majority_is_crash_resilient_only() {
    let q = ThresholdQuorum::new(5, 3);
    assert_eq!(q.intersection_lower_bound(), 1);
    assert!(q.is_byzantine_resilient(0));
    assert!(!q.is_byzantine_resilient(1));
}

#[test]
fn quorum_membership() {
    let q = ThresholdQuorum::new(4, 3);
    let mut s: BTreeSet<NodeId> = BTreeSet::new();
    s.insert(NodeId(0));
    s.insert(NodeId(1));
    assert!(!q.is_quorum(&s));
    s.insert(NodeId(2));
    assert!(q.is_quorum(&s));
    s.insert(NodeId(3));
    assert!(q.is_quorum(&s));
}

// ---------------------------------------------------------------------
// Cryptographic stand-ins
// ---------------------------------------------------------------------

#[test]
fn sha256_is_deterministic() {
    assert_eq!(sha256(b"abc"), sha256(b"abc"));
    assert_ne!(sha256(b"abc"), sha256(b"abd"));
}

#[test]
fn mock_sign_verify_roundtrip() {
    let sig = mock_sign(NodeId(7), b"hello");
    assert!(mock_verify(&sig, NodeId(7), b"hello"));
    assert!(!mock_verify(&sig, NodeId(8), b"hello"));
    assert!(!mock_verify(&sig, NodeId(7), b"goodbye"));
}

#[test]
fn threshold_accumulates() {
    let mut acc = MockThresholdAccumulator::new(3);
    for i in 0..5 {
        acc.add(mock_sign(NodeId(i), b"vote"));
    }
    let digest = sha256(b"vote");
    let combined = acc.combine(&digest).expect("combine ok");
    assert!(combined.verify(b"vote", 3));
    assert!(combined.verify(b"vote", 5));
    assert!(!combined.verify(b"vote", 6));
}

#[test]
fn threshold_below_count_fails() {
    let mut acc = MockThresholdAccumulator::new(3);
    acc.add(mock_sign(NodeId(0), b"vote"));
    acc.add(mock_sign(NodeId(1), b"vote"));
    let digest = sha256(b"vote");
    assert!(acc.combine(&digest).is_none());
}

#[test]
fn vrf_distinguishes_inputs() {
    let y1 = mock_vrf_eval(42, b"slot-1");
    let y2 = mock_vrf_eval(42, b"slot-2");
    let y3 = mock_vrf_eval(7, b"slot-1");
    assert_ne!(y1, y2);
    assert_ne!(y1, y3);
}

// ---------------------------------------------------------------------
// Common coins
// ---------------------------------------------------------------------

#[test]
fn coins_are_deterministic() {
    assert_eq!(threshold_bls_coin(1), threshold_bls_coin(1));
    assert_eq!(vrf_coin(1), vrf_coin(1));
    assert_eq!(vdf_coin(1), vdf_coin(1));
    assert_eq!(drand_coin(1), drand_coin(1));
}

#[test]
fn coins_distinguish_rounds() {
    let pairs = [(1, 2), (3, 4), (5, 6), (7, 8)];
    let mut diff = 0;
    for (a, b) in pairs {
        if threshold_bls_coin(a) != threshold_bls_coin(b) {
            diff += 1;
        }
    }
    assert!(diff >= 1, "all 4 round-pairs gave the same coin");
}

#[test]
fn different_constructions_can_disagree() {
    let r = 7;
    let _ = threshold_bls_coin(r);
    let _ = vrf_coin(r);
    let _ = vdf_coin(r);
    let _ = drand_coin(r);
}

// ---------------------------------------------------------------------
// Viewstamped Replication Revisited
// ---------------------------------------------------------------------

#[test]
fn persistence_default() {
    let p = PersistenceRecord::default();
    assert_eq!(p.view_num, 0);
    assert_eq!(p.op_num, 0);
    assert_eq!(p.commit_num, 0);
    assert!(p.log.is_empty());
    assert!(p.last_dvc_vote.is_none());
}

#[test]
fn status_distinct() {
    let n = VrStatus::Normal;
    let r = VrStatus::Reconfiguring(vec![NodeId(0), NodeId(1)]);
    assert_ne!(n, r);
}

// ---------------------------------------------------------------------
// Paxos variants
// ---------------------------------------------------------------------

#[test]
fn cheap_paxos_config_3_2() {
    let cfg = Config { main: vec![NodeId(0), NodeId(1), NodeId(2)], auxiliary: vec![NodeId(3), NodeId(4)] };
    assert_eq!(cfg.n(), 5);
    assert_eq!(cfg.quorum(), 3);
    assert!(cfg.is_valid());
}

#[test]
fn invalid_when_main_under_quorum() {
    let cfg = Config { main: vec![NodeId(0), NodeId(1)], auxiliary: vec![NodeId(2), NodeId(3), NodeId(4)] };
    assert!(!cfg.is_valid());
}

#[test]
fn fast_paxos_n7_f2() {
    assert_eq!(classic_quorum(7), 4);
    assert_eq!(fast_quorum(7, 2), 5);
    assert_eq!(intersection_lower_bound(7, 2), 2);
}

#[test]
fn fast_paxos_n10_f3() {
    assert_eq!(classic_quorum(10), 6);
    assert_eq!(fast_quorum(10, 3), 7);
    assert_eq!(intersection_lower_bound(10, 3), 3);
}

#[test]
fn different_keys_commute() {
    let a = KvWrite { key: 1, value: 100 };
    let b = KvWrite { key: 2, value: 200 };
    assert!(a.commutes_with(&b));
}

#[test]
fn same_key_writes_conflict() {
    let a = KvWrite { key: 1, value: 100 };
    let b = KvWrite { key: 1, value: 200 };
    assert!(!a.commutes_with(&b));
}

#[test]
fn epaxos_n5_f2() {
    assert_eq!(epaxos::fast_quorum(5, 2), 4);
    assert_eq!(epaxos::slow_quorum(5), 3);
}

#[test]
fn epaxos_n7_f3() {
    assert_eq!(epaxos::fast_quorum(7, 3), 5);
    assert_eq!(epaxos::slow_quorum(7), 4);
}

#[test]
fn config_new() {
    let cfg = Configuration::new(0, vec![NodeId(0), NodeId(1), NodeId(2)], 0);
    assert_eq!(cfg.epoch, 0);
    assert_eq!(cfg.replicas.len(), 3);
    assert_eq!(cfg.quorum(), 2);
}

#[test]
fn write_and_read_back() {
    let mut disks = SharedDisks::default();
    disks.write(0, NodeId(0), Block { ballot: 1, accepted: Some((1, 42)) });
    disks.write(0, NodeId(1), Block { ballot: 1, accepted: None });
    let others = disks.read_others(0, NodeId(0));
    assert_eq!(others.len(), 1);
    assert_eq!(others[0].ballot, 1);
}

#[test]
fn process_reads_majority_of_disks() {
    let mut disks = SharedDisks::default();
    for d in 0..3 {
        disks.write(d, NodeId(0), Block { ballot: 5, accepted: Some((5, 100)) });
    }
    let mut majority_count = 0;
    for d in 0..3 {
        if disks.get(d, NodeId(0)).is_some_and(|b| b.ballot == 5) {
            majority_count += 1;
        }
    }
    assert!(majority_count >= 2);
}

fn s(ids: &[u32]) -> Vec<NodeId> {
    ids.iter().copied().map(NodeId).collect()
}

#[test]
fn classic_majorities_intersect() {
    let majorities: Vec<Vec<NodeId>> = vec![s(&[0, 1, 2]), s(&[0, 1, 3]), s(&[0, 1, 4]), s(&[0, 2, 3])];
    let q = FlexibleQuorums { p1: majorities.clone(), p2: majorities };
    assert!(q.verify_intersection());
}

#[test]
fn read_optimised_intersect() {
    let q = FlexibleQuorums { p1: vec![s(&[0, 1, 2, 3, 4])], p2: vec![s(&[0]), s(&[1]), s(&[2]), s(&[3]), s(&[4])] };
    assert!(q.verify_intersection());
}

#[test]
fn under_size_fails() {
    let q = FlexibleQuorums { p1: vec![s(&[0, 1])], p2: vec![s(&[2, 3])] };
    assert!(!q.verify_intersection());
}

#[test]
fn role_eq() {
    assert_eq!(Role::Proposer, Role::Proposer);
    assert_ne!(Role::Proposer, Role::Acceptor);
}

// ---------------------------------------------------------------------
// Crash-tolerant replication helpers
// ---------------------------------------------------------------------

#[test]
fn local_read_returns_clean() {
    let s = KeyState { clean: Some(100), dirty: vec![] };
    assert_eq!(s.local_read(), Some(100));
}

#[test]
fn dirty_blocks_local_read() {
    let s = KeyState { clean: Some(100), dirty: vec![(2, 200)] };
    assert_eq!(s.local_read(), None);
}

#[test]
fn promote_clears_dirty() {
    let mut s = KeyState { clean: Some(100), dirty: vec![(2, 200)] };
    s.promote(2);
    assert_eq!(s.clean, Some(200));
    assert!(s.dirty.is_empty());
}

#[test]
fn truetime_intervals() {
    let tt = TrueTime::new(100, 7);
    assert_eq!(tt.interval(), (93, 107));
    assert!(tt.after(50));
    assert!(!tt.after(95));
    assert!(tt.before(120));
    assert!(!tt.before(105));
}

#[test]
fn commit_wait_external_consistency() {
    let tt_at_commit = TrueTime::new(100, 7);
    let t_commit_1 = tt_at_commit.interval().1 + 1;
    let tt_after_wait = TrueTime::new(116, 7);
    assert!(tt_after_wait.after(t_commit_1));
    let t_commit_2 = tt_after_wait.interval().1 + 1;
    assert!(t_commit_1 < t_commit_2);
}

#[test]
fn cas_increment() {
    let mut acceptors = vec![CasPaxosAcceptor::default(); 3];
    let mut promises = 0;
    for a in &mut acceptors {
        if matches!(a.prepare(1), PrepareReply::Promised(_)) {
            promises += 1;
        }
    }
    assert!(promises >= 2);
    let f: CasFn = |v| v + 1;
    let new_value = f(0);
    let mut accepteds = 0;
    for a in &mut acceptors {
        if a.accept(1, new_value) {
            accepteds += 1;
        }
    }
    assert!(accepteds >= 2);
    for a in &acceptors {
        assert_eq!(a.accepted, Some((1, 1)));
    }
}

#[test]
fn atlas_n5_f2_low_conflict() {
    assert_eq!(atlas::fast_quorum(2, 0), 3);
    assert_eq!(atlas::slow_quorum(5), 3);
}

#[test]
fn atlas_n5_f2_high_conflict() {
    assert_eq!(atlas::fast_quorum(2, 2), 4);
}

// ---------------------------------------------------------------------
// Byzantine-tolerant replication helpers
// ---------------------------------------------------------------------

#[test]
fn layers_distinct() {
    assert_ne!(Layer::GroupCommunication, Layer::Membership);
}

#[test]
fn ring_next_wraps() {
    let r = Ring::new(vec![NodeId(0), NodeId(1), NodeId(2)]);
    assert_eq!(r.next(NodeId(0)), Some(NodeId(1)));
    assert_eq!(r.next(NodeId(2)), Some(NodeId(0)));
}

#[test]
fn qu_n6_f1() {
    assert_eq!(qu::min_n(1), 6);
    assert_eq!(qu::quorum_size(1), 5);
}

#[test]
fn paths_distinct() {
    assert_ne!(Path::Fast, Path::Slow);
}

#[test]
fn classify_n4_f1() {
    assert_eq!(classify(4, 4, 1), ClientDecision::FastCommit);
    assert_eq!(classify(3, 4, 1), ClientDecision::SlowCommit);
    assert_eq!(classify(2, 4, 1), ClientDecision::Fallback);
}

#[test]
fn perf_threshold_triggers() {
    let m = PerfMonitor { threshold_ops_per_sec: 1000, window_ops: 100 };
    assert!(m.should_view_change(500));
    assert!(!m.should_view_change(1500));
}

#[test]
fn upright_u1_r2() {
    assert_eq!(upright::min_n(1, 2), 5);
    assert_eq!(upright::quorum(1, 2), 4);
}

#[test]
fn rotation_cycles() {
    for r in 0..10 {
        assert_eq!(primary_for_round(r, 4), r % 4);
    }
}

#[test]
fn primary_respecting_pre_order() {
    let p = PreOrder { pending: vec![1, 2, 3] };
    assert!(p.respects(&[1, 2, 3]));
    assert!(p.respects(&[1, 4, 2, 5, 3]));
    assert!(!p.respects(&[2, 1, 3]));
}

#[test]
fn steward_3sites_4replicas() {
    assert_eq!(total_replicas(4, 3), 12);
    assert_eq!(local_quorum(4, 1), 3);
    assert_eq!(global_quorum(3), 2);
}

#[test]
fn counter_monotone() {
    let mut t = TrInc::default();
    let (c1, _) = t.attest(100);
    let (c2, _) = t.attest(200);
    assert!(c2 > c1);
}

#[test]
fn minbft_f1() {
    assert_eq!(minbft::min_n(1), 3);
    assert_eq!(minbft::quorum(1), 2);
}

#[test]
fn three_regimes() {
    assert_eq!(bft2f::classify(1, 1), Regime::Linearisable);
    assert_eq!(bft2f::classify(2, 1), Regime::ForkConsistent);
    assert_eq!(bft2f::classify(3, 1), Regime::NoConsistency);
}

#[test]
fn components_distinct() {
    assert_ne!(Component::Auth, Component::Network);
}

#[test]
fn step_distinct() {
    assert_ne!(Step::Propose, Step::Prevote);
    assert_ne!(Step::Prevote, Step::Precommit);
}

#[test]
fn phases_distinct() {
    assert_ne!(Phase::Prepare, Phase::Commit);
}

#[test]
fn block_construction() {
    let qc = QuorumCert { height: 1, block_hash: 0xABC };
    let b = hotstuff::Block { parent: 0xABC, qc, payload: vec![1, 2, 3], height: 2 };
    assert_eq!(b.height, 2);
    assert_eq!(b.qc.height, 1);
}

#[test]
fn version_distinct() {
    assert_ne!(Version::LibraV1, Version::V4);
}

#[test]
fn jolteon_shorter() {
    assert!(commit_chain_length(ChainFamily::Jolteon) < commit_chain_length(ChainFamily::HotStuff));
}

#[test]
fn phases_two() {
    assert_eq!(PHASES, 2);
}

#[test]
fn finality_three() {
    assert_eq!(FINALITY_CHAIN_LENGTH, 3);
}
