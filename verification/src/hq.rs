//! HQ Replication paths.

use vstd::prelude::*;

verus! {

/// The path an operation takes.
#[derive(Clone, Copy, Debug, PartialEq, Eq, Structural)]
pub enum Path {
    /// Fast path (no contention): one round trip.
    Fast,
    /// Slow path (PBFT-style): three phases.
    Slow,
}

} // verus!
