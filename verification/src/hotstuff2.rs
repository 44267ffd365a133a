//! HotStuff-2: two phases.

use vstd::prelude::*;

verus! {

/// HotStuff-2 phase count.
pub const PHASES: usize = 2;

} // verus!
