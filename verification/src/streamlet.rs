//! Streamlet's finality rule.

use vstd::prelude::*;

verus! {

/// Three consecutive notarised blocks finalise the middle one.
pub const FINALITY_CHAIN_LENGTH: usize = 3;

} // verus!
