//! Counters that stop at the largest value they can hold.

use vstd::prelude::*;

verus! {

/// The count `n` as a counter of 64 bits shows it: `n`, or the largest value
/// of a `u64` once `n` has passed it.
pub open spec fn capped(n: nat) -> nat {
    if n > u64::MAX {
        u64::MAX as nat
    } else {
        n
    }
}

} // verus!
