//! The 64-bit mixing hash used to spread return addresses over the filter
//! bitmaps.

use vstd::prelude::*;

verus! {

/// The value `murmur64` computes: three xor-shift rounds interleaved with two
/// wrapping multiplications by fixed odd constants.
#[verifier::opaque]
pub open spec fn spec_murmur64(h: u64) -> u64 {
    let a = h ^ (h >> 33);
    let b = vstd::wrapping::u64_specs::wrapping_mul(a, 0xff51afd7ed558ccd);
    let c = b ^ (b >> 33);
    let d = vstd::wrapping::u64_specs::wrapping_mul(c, 0xc4ceb9fe1a85ec53);
    d ^ (d >> 33)
}

/// The murmur3 64-bit finalizer, used to hash a return address before
/// indexing the filter bitmaps.
pub fn murmur64(h: u64) -> (r: u64)
    ensures
        r == spec_murmur64(h),
{
    proof {
        reveal(spec_murmur64);
    }
    let mut h = h;
    h ^= h >> 33;
    h = h.wrapping_mul(0xff51afd7ed558ccd);
    h ^= h >> 33;
    h = h.wrapping_mul(0xc4ceb9fe1a85ec53);
    h ^= h >> 33;
    h
}

} // verus!
