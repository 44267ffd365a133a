//! Spinning: the primary rotates every round.

use vstd::prelude::*;

verus! {

/// The primary of round `r` in a group of `n` replicas: `r mod n`.
pub fn primary_for_round(r: u32, n: u32) -> (p: u32)
    requires
        n > 0,
    ensures
        p == r % n,
        p < n,
{
    r % n
}

/// Over any `n` consecutive rounds every replica is primary exactly
/// once: round `r + n` has the same primary as round `r`, and round
/// `r + 1` the next replica in turn.
pub proof fn lemma_rotation_cycles(r: int, n: int)
    requires
        n > 0,
        r >= 0,
    ensures
        (r + n) % n == r % n,
        (r + 1) % n == (r % n + 1) % n,
{
    vstd::arithmetic::div_mod::lemma_mod_add_multiples_vanish(r, n);
    vstd::arithmetic::div_mod::lemma_add_mod_noop(r, 1, n);
    if n > 1 {
        vstd::arithmetic::div_mod::lemma_small_mod(1, n as nat);
    } else {
        assert((r % n + 1) % n == 0);
        assert((r + 1) % n == 0);
    }
}

} // verus!
