//! A trusted monotone counter (TrInc).

use vstd::prelude::*;

verus! {

/// Trusted increment counter: monotone, never rewound.
#[derive(Clone, Debug, Default)]
pub struct TrInc {
    /// Current counter value.
    pub counter: u64,
}

impl TrInc {
    /// Increment the counter and bind `value` to its new value: each
    /// attestation carries a counter strictly above every earlier one.
    pub fn attest(&mut self, value: u64) -> (r: (u64, u64))
        requires
            old(self).counter < u64::MAX,
        ensures
            final(self).counter == old(self).counter + 1,
            r == (final(self).counter, value),
            r.0 > old(self).counter,
    {
        self.counter = self.counter + 1;
        (self.counter, value)
    }
}

} // verus!
