//! Stand-ins for the cryptographic primitives that the protocols use:
//! SHA-256 digests, tag signatures, a threshold accumulator and a
//! deterministic verifiable random function. They have the shape of
//! the real primitives and none of their security.

use crate::collections::{ascending, Key, KeySet, Tally};
use crate::net::NodeId;
use sha2::{Digest, Sha256};
use vstd::bytes::{spec_u64_from_le_bytes, spec_u64_to_le_bytes, u64_from_le_bytes, u64_to_le_bytes};
use vstd::prelude::*;

verus! {

/// The SHA-256 digest of `bytes`.
pub uninterp spec fn sha256_digest(bytes: Seq<u8>) -> Seq<u8>;

/// The SHA-256 digest of `bytes` (`sha2::Sha256::digest`). The contract
/// claims only that the result is `sha256_digest` of the input bytes;
/// the 32-byte length comes from the type.
#[verifier::external_body]
pub fn sha256(bytes: &[u8]) -> (d: [u8; 32])
    ensures
        d@ == sha256_digest(bytes@),
{
    Sha256::digest(bytes).into()
}

impl Key for [u8; 32] {
    fn same(&self, other: &Self) -> (r: bool) {
        let mut i: usize = 0;
        while i < 32
            invariant
                i <= 32,
                forall|j: int| 0 <= j < i ==> self[j] == other[j],
            decreases 32 - i,
        {
            if self[i] != other[i] {
                return false;
            }
            i = i + 1;
        }
        proof {
            broadcast use vstd::array::axiom_array_ext_equal;
            assert(*self =~= *other);
        }
        true
    }
}

/// Whether two digests hold the same bytes.
pub fn digest_eq(a: &[u8; 32], b: &[u8; 32]) -> (r: bool)
    ensures
        r == (a@ == b@),
{
    let r = a.same(b);
    proof {
        broadcast use vstd::array::axiom_array_ext_equal;
        if a@ == b@ {
            assert forall|j: int| 0 <= j < 32 implies a[j] == b[j] by {
                assert(a@[j] == b@[j]);
            }
            assert(*a =~= *b);
        }
    }
    r
}

/// A tag "signature": the signer's identity beside the SHA-256 digest
/// of the signed bytes. Anyone can forge one.
#[derive(Clone, Copy, Debug, PartialEq, Eq, Hash, PartialOrd, Ord)]
pub struct MockSig {
    /// Signer.
    pub signer: NodeId,
    /// SHA-256 of the signed bytes.
    pub digest: [u8; 32],
}

/// Whether `sig` is `signer`'s signature over `msg`: it names the
/// signer and carries the digest of `msg`.
pub open spec fn is_signature(sig: MockSig, signer: NodeId, msg: Seq<u8>) -> bool {
    sig.signer == signer && sig.digest@ == sha256_digest(msg)
}

/// Sign `msg` as `signer`: the result verifies for `signer` and `msg`.
pub fn mock_sign(signer: NodeId, msg: &[u8]) -> (sig: MockSig)
    ensures
        is_signature(sig, signer, msg@),
{
    MockSig { signer, digest: sha256(msg) }
}

/// Whether `sig` is `signer`'s signature over `msg`.
pub fn mock_verify(sig: &MockSig, signer: NodeId, msg: &[u8]) -> (r: bool)
    ensures
        r == is_signature(*sig, signer, msg@),
{
    let d = sha256(msg);
    sig.signer.0 == signer.0 && digest_eq(&sig.digest, &d)
}

/// Collects partial signatures per digest; combining succeeds once
/// `threshold` distinct signers have signed the same digest.
#[derive(Debug)]
pub struct MockThresholdAccumulator {
    threshold: usize,
    partials: Tally<[u8; 32]>,
}

impl MockThresholdAccumulator {
    /// How many distinct signers a combination needs.
    pub closed spec fn required(&self) -> nat {
        self.threshold as nat
    }

    /// The distinct signers recorded for `digest`.
    pub closed spec fn signers(&self, digest: [u8; 32]) -> Set<NodeId> {
        self.partials.voters(digest)
    }

    /// An accumulator that needs `threshold` signers.
    pub fn new(threshold: usize) -> (a: Self)
        ensures
            a.required() == threshold,
            forall|d: [u8; 32]| #[trigger] a.signers(d) == Set::<NodeId>::empty(),
    {
        MockThresholdAccumulator { threshold, partials: Tally::new() }
    }

    /// Record a partial signature.
    pub fn add(&mut self, sig: MockSig)
        ensures
            final(self).required() == old(self).required(),
            final(self).signers(sig.digest) == old(self).signers(sig.digest).insert(sig.signer),
            forall|d: [u8; 32]| d != sig.digest ==> #[trigger] final(self).signers(d) == old(self).signers(d),
    {
        let _ = self.partials.add(sig.digest, sig.signer);
    }

    /// Combine the partials over `digest`: `Some` exactly when at least
    /// `threshold` distinct signers have signed it; the signers are
    /// listed in increasing order.
    pub fn combine(&self, digest: &[u8; 32]) -> (r: Option<MockThresholdSig>)
        ensures
            r.is_some() <==> self.signers(*digest).len() >= self.required(),
            r matches Some(t) ==> t.digest == *digest && t.signers@ == self.signers(*digest),
            r matches Some(t) ==> ascending(t.signers.elems()),
    {
        let n = self.partials.count(digest);
        if n >= self.threshold {
            Some(MockThresholdSig { digest: *digest, signers: self.partials.voter_set(digest) })
        } else {
            None
        }
    }
}

/// A threshold signature: the signed digest and its signers.
#[derive(Debug)]
pub struct MockThresholdSig {
    /// Hash of the signed message.
    pub digest: [u8; 32],
    /// The contributing signers.
    pub signers: KeySet<NodeId>,
}

impl MockThresholdSig {
    /// Whether this signs `msg` with at least `threshold` signers.
    pub fn verify(&self, msg: &[u8], threshold: usize) -> (r: bool)
        ensures
            r == (sha256_digest(msg@) == self.digest@ && self.signers@.len() >= threshold),
    {
        let d = sha256(msg);
        digest_eq(&d, &self.digest) && self.signers.len() >= threshold
    }
}

/// The bytes that the verifiable random function hashes: the secret
/// in little-endian order followed by the input.
pub open spec fn vrf_input(secret: u64, x: Seq<u8>) -> Seq<u8> {
    spec_u64_to_le_bytes(secret) + x
}

/// A deterministic "verifiable random function": the first eight bytes,
/// little-endian, of the SHA-256 digest of the secret's little-endian
/// bytes followed by `x`.
pub fn mock_vrf_eval(secret: u64, x: &[u8]) -> (r: u64)
    ensures
        r == spec_u64_from_le_bytes(sha256_digest(vrf_input(secret, x@)).take(8)),
{
    let mut buf = u64_to_le_bytes(secret);
    let ghost start = buf@;
    let mut i: usize = 0;
    while i < x.len()
        invariant
            i <= x@.len(),
            start == spec_u64_to_le_bytes(secret),
            buf@ == start + x@.take(i as int),
        decreases x@.len() - i,
    {
        buf.push(x[i]);
        assert(x@.take(i + 1) =~= x@.take(i as int).push(x@[i as int]));
        i = i + 1;
    }
    assert(x@.take(x@.len() as int) =~= x@);
    let h = sha256(buf.as_slice());
    let mut first: Vec<u8> = Vec::new();
    let mut k: usize = 0;
    while k < 8
        invariant
            k <= 8,
            h@.len() == 32,
            first@ == h@.take(k as int),
        decreases 8 - k,
    {
        first.push(h[k]);
        assert(h@.take(k + 1) =~= h@.take(k as int).push(h@[k as int]));
        k = k + 1;
    }
    u64_from_le_bytes(first.as_slice())
}

} // verus!
