//! Keccak-f[1600] permutation — delegated to the `keccak` crate.

use vstd::prelude::*;

verus! {

/// Width of the Keccak-f[1600] state in 64-bit lanes.
pub const STATE_LANES: usize = 25;

/// Width of the Keccak-f[1600] state in bytes.
pub const STATE_BYTES: usize = 200;

/// The Keccak-f[1600] permutation (24 rounds) on 25 lanes.
pub uninterp spec fn keccak_f1600_spec(state: Seq<u64>) -> Seq<u64>;

/// Calls `keccak::f1600` on the state in place.
/// Trusted: the new state is the Keccak-f[1600] image of the old one, a
/// function of the old state alone.
#[verifier::external_body]
pub fn keccak_f1600(state: &mut [u64; STATE_LANES])
    ensures
        final(state)@ == keccak_f1600_spec(old(state)@),
{
    keccak::f1600(state);
}

} // verus!
