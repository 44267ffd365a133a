//! Generalized Paxos: commands with a commutativity relation.

use vstd::prelude::*;

verus! {

/// State-machine commands with a commutativity relation.
pub trait Commutes {
    /// Whether `self` and `other` commute.
    spec fn commutes_spec(&self, other: &Self) -> bool;

    /// Returns true iff the two commands commute (their order does not
    /// affect the final state).
    fn commutes_with(&self, other: &Self) -> (r: bool)
        ensures
            r == self.commutes_spec(other),
    ;
}

/// Per-key writes: they commute iff they target different keys.
#[derive(Clone, Copy, Debug, PartialEq, Eq, Structural)]
pub struct KvWrite {
    /// Key.
    pub key: u32,
    /// Value.
    pub value: u32,
}

impl Commutes for KvWrite {
    open spec fn commutes_spec(&self, other: &Self) -> bool {
        self.key != other.key
    }

    fn commutes_with(&self, other: &Self) -> (r: bool) {
        self.key != other.key
    }
}

/// Commutativity of key-value writes is symmetric and irreflexive:
/// a write never commutes with a write to the same key, itself included.
pub proof fn lemma_kv_commutes_symmetric(a: KvWrite, b: KvWrite)
    ensures
        a.commutes_spec(&b) == b.commutes_spec(&a),
        !a.commutes_spec(&a),
{
}

} // verus!
