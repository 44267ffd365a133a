//! BFT2F fault regimes.

use vstd::prelude::*;

verus! {

/// BFT2F's three regimes of fault tolerance.
#[derive(Clone, Copy, Debug, PartialEq, Eq, Structural)]
pub enum Regime {
    /// `f' <= f`: full linearisability (the PBFT regime).
    Linearisable,
    /// `f < f' < 2f + 1`: fork consistency.
    ForkConsistent,
    /// `f' >= 2f + 1`: no useful consistency.
    NoConsistency,
}

/// The regime for `f_prime` actual Byzantine faults under design
/// parameter `f`.
pub fn classify(f_prime: usize, f: usize) -> (r: Regime)
    requires
        2 * f + 1 <= usize::MAX,
    ensures
        r == (if f_prime <= f {
            Regime::Linearisable
        } else if f_prime < 2 * f + 1 {
            Regime::ForkConsistent
        } else {
            Regime::NoConsistency
        }),
{
    if f_prime <= f {
        Regime::Linearisable
    } else if f_prime < 2 * f + 1 {
        Regime::ForkConsistent
    } else {
        Regime::NoConsistency
    }
}

} // verus!
