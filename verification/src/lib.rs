//! Distributed-protocol building blocks: each protocol node is a
//! deterministic state machine whose handlers take an event and record
//! the messages and timers they produce in a [`net::StepCtx`].

pub mod net;
pub mod crypto;
pub mod coins;
pub mod system_models;
pub mod failure_models;
pub mod dolev_reischuk;
pub mod quorum;
pub mod fast_paxos;
pub mod epaxos;
pub mod atlas;
pub mod qu;
pub mod upright;
pub mod minbft;
pub mod steward;
pub mod spinning;
pub mod zyzzyva;
pub mod bft2f;
pub mod jolteon;
pub mod hotstuff2;
pub mod streamlet;
pub mod aardvark;
pub mod trinc;
pub mod prime;
pub mod craq;
pub mod caspaxos;
pub mod truetime;
pub mod securering;
pub mod compartmentalized_paxos;
pub mod hq;
pub mod bft_smart;
pub mod diembft;
pub mod cheap_paxos;
pub mod vertical_paxos;
pub mod generalized_paxos;
pub mod tendermint;
pub mod hotstuff;
pub mod vr_revisited;
pub mod rampart;
pub mod flexible_paxos;
pub mod disk_paxos;
pub mod collections;
pub mod paxos_synod;
pub mod multi_paxos;
pub mod raft;
pub mod viewstamped;
pub mod two_phase_commit;
pub mod dolev_strong;
pub mod byzantine_generals;
pub mod pbft;
pub mod zab;
pub mod mencius;
pub mod chain_replication;
pub mod flp;
pub mod two_generals;
pub mod cap;
pub mod failure_detector;
pub mod bracha_rb;
pub mod ben_or;
pub mod rabin;
pub mod bracha_aba;
pub mod mmr;
pub mod smr;
