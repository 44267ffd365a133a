//! Zyzzyva client-side path decision.

use vstd::prelude::*;

verus! {

/// Zyzzyva client decision based on the number of matching replies.
#[derive(Clone, Copy, Debug, PartialEq, Eq, Structural)]
pub enum ClientDecision {
    /// All `3f + 1` matched: fast-path commit.
    FastCommit,
    /// `2f + 1` matched: trigger the commit phase.
    SlowCommit,
    /// Fewer matched: fall back to PBFT.
    Fallback,
}

/// The client's decision given `matched` matching replies out of `n`
/// replicas with Byzantine bound `f`.
pub fn classify(matched: usize, n: usize, f: usize) -> (d: ClientDecision)
    requires
        2 * f + 1 <= usize::MAX,
    ensures
        d == (if matched == n {
            ClientDecision::FastCommit
        } else if matched >= 2 * f + 1 {
            ClientDecision::SlowCommit
        } else {
            ClientDecision::Fallback
        }),
{
    if matched == n {
        ClientDecision::FastCommit
    } else if matched >= 2 * f + 1 {
        ClientDecision::SlowCommit
    } else {
        ClientDecision::Fallback
    }
}

} // verus!
