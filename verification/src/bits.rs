//! Single-bit access to bytes, shared by the planar tile codec.

use vstd::prelude::*;

verus! {

/// Bit `k` (0 = least significant) of the byte `x`, as 0 or 1.
pub open spec fn bit(x: u8, k: u8) -> u8 {
    (x >> k) & 1
}

pub proof fn lemma_bit_bound(x: u8, k: u8)
    ensures
        bit(x, k) < 2,
{
    assert((x >> k) & 1 < 2) by (bit_vector);
}

/// Extract bit `k` of the byte `x`.
pub fn get_bit(x: u8, k: u8) -> (r: u8)
    requires
        k < 8,
    ensures
        r == bit(x, k),
        r < 2,
{
    proof {
        lemma_bit_bound(x, k);
    }
    (x >> k) & 1
}

/// Write bit `k` of the byte `x` to `b`, leaving the other bits unchanged.
pub fn set_bit(x: u8, k: u8, b: u8) -> (r: u8)
    requires
        k < 8,
        b < 2,
    ensures
        forall|j: u8| j < 8 ==> bit(r, j) == (if j == k {
            b
        } else {
            bit(x, j)
        }),
{
    let r = (x & !(1u8 << k)) | (b << k);
    proof {
        assert forall|j: u8| j < 8 implies bit(r, j) == (if j == k {
            b
        } else {
            bit(x, j)
        }) by {
            assert(j == k ==> ((x & !(1u8 << k)) | (b << k)) >> j & 1 == b) by (bit_vector)
                requires
                    k < 8,
                    b < 2,
                    j < 8,
            ;
            assert(j != k ==> ((x & !(1u8 << k)) | (b << k)) >> j & 1 == (x >> j) & 1)
                by (bit_vector)
                requires
                    k < 8,
                    b < 2,
                    j < 8,
            ;
        }
    }
    r
}

} // verus!
