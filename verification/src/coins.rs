//! Common-coin oracles for the asynchronous agreement protocols: each
//! construction is simulated by hashing the round under its own salt
//! and keeping the lowest bit.

use std::collections::hash_map::DefaultHasher;
use std::hash::{BuildHasher, BuildHasherDefault};
use vstd::prelude::*;

verus! {

/// What the standard library's `DefaultHasher`, created by `new`, ends
/// with after hashing `salt` and then `round`.
pub uninterp spec fn default_hash_salted_round(salt: Seq<u8>, round: u32) -> u64;

/// Hashes `salt`, then `round`, into a fresh `DefaultHasher` and returns
/// `finish` (`BuildHasher::hash_one` of the pair under
/// `BuildHasherDefault<DefaultHasher>`). Every `DefaultHasher` made by
/// `new` or `default` is documented to be the same, so the result is
/// named as a function of the two arguments; nothing more is claimed.
#[verifier::external_body]
fn salted_round_hash(salt: &[u8], round: u32) -> (h: u64)
    ensures
        h == default_hash_salted_round(salt@, round),
{
    let builder: BuildHasherDefault<DefaultHasher> = BuildHasherDefault::default();
    builder.hash_one((salt, round))
}

/// The coin that a hash value gives: its lowest bit.
pub fn low_bit(h: u64) -> (b: bool)
    ensures
        b == (h % 2 == 1),
{
    assert(h & 1 == h % 2) by (bit_vector);
    h & 1 == 1
}

/// The coin of `round` under `salt`.
pub open spec fn salted_coin(salt: Seq<u8>, round: u32) -> bool {
    default_hash_salted_round(salt, round) % 2 == 1
}

/// Hash a round number to a single bit under `salt`.
pub fn hash_round_to_bit(round: u32, salt: &[u8]) -> (b: bool)
    ensures
        b == salted_coin(salt@, round),
{
    low_bit(salted_round_hash(salt, round))
}

/// The salt of the simulated threshold-BLS coin: `threshold-bls`.
pub open spec fn threshold_bls_salt() -> Seq<u8> {
    seq![116u8, 104, 114, 101, 115, 104, 111, 108, 100, 45, 98, 108, 115]
}

/// The salt of the simulated VRF coin: `vrf`.
pub open spec fn vrf_salt() -> Seq<u8> {
    seq![118u8, 114, 102]
}

/// The salt of the simulated VDF coin: `vdf`.
pub open spec fn vdf_salt() -> Seq<u8> {
    seq![118u8, 100, 102]
}

/// The salt of the simulated drand beacon: `drand`.
pub open spec fn drand_salt() -> Seq<u8> {
    seq![100u8, 114, 97, 110, 100]
}

/// Threshold-BLS coin (simulated).
pub fn threshold_bls_coin(round: u32) -> (b: bool)
    ensures
        b == salted_coin(threshold_bls_salt(), round),
{
    let salt: [u8; 13] = [116, 104, 114, 101, 115, 104, 111, 108, 100, 45, 98, 108, 115];
    assert(salt@ =~= threshold_bls_salt());
    hash_round_to_bit(round, &salt)
}

/// VRF-based coin (simulated).
pub fn vrf_coin(round: u32) -> (b: bool)
    ensures
        b == salted_coin(vrf_salt(), round),
{
    let salt: [u8; 3] = [118, 114, 102];
    assert(salt@ =~= vrf_salt());
    hash_round_to_bit(round, &salt)
}

/// VDF-based coin (simulated).
pub fn vdf_coin(round: u32) -> (b: bool)
    ensures
        b == salted_coin(vdf_salt(), round),
{
    let salt: [u8; 3] = [118, 100, 102];
    assert(salt@ =~= vdf_salt());
    hash_round_to_bit(round, &salt)
}

/// drand beacon (simulated).
pub fn drand_coin(round: u32) -> (b: bool)
    ensures
        b == salted_coin(drand_salt(), round),
{
    let salt: [u8; 5] = [100, 114, 97, 110, 100];
    assert(salt@ =~= drand_salt());
    hash_round_to_bit(round, &salt)
}

} // verus!
