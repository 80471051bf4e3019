use vstd::prelude::*;

verus! {

/// Relies on macroquad::rand::gen_range (quad-rand's integer range draw):
/// it scales a 32-bit uniform draw `k` to `low + (high - low) * k / 2^32`
/// in f64 and truncates, which lands in `[low, high)` whenever `low < high`
/// and the scaled product is exact in f64; `high <= 2^20` keeps it exact.
/// Nothing is promised about the distribution of the result.
#[verifier::external_body]
pub(crate) fn rand_in(low: u32, high: u32) -> (r: u32)
    requires
        low < high,
        high <= 0x100000,
    ensures
        low <= r < high,
{
    macroquad::rand::gen_range(low, high)
}

} // verus!
