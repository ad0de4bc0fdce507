use vstd::prelude::*;

verus! {

/// Relies on `macroquad::rand::gen_range` (quad-rand) on `u64`: it scales a
/// uniform 32-bit draw `k / 2^32` by `high - low` in `f64` and truncates, so for
/// `0 < n <= 2^32` the product stays below `n` and the result lies in `0..n`.
#[verifier::external_body]
pub(crate) fn random_below(n: u64) -> (r: u64)
    requires
        0 < n <= 0x1_0000_0000,
    ensures
        r < n,
{
    macroquad::rand::gen_range(0u64, n)
}

} // verus!
