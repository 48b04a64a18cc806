//! Arithmetic in 64 bits on 32-bit values.

use vstd::prelude::*;

verus! {

/// The product of two 32-bit values, which always fits 64 bits.
pub fn product(a: u32, b: u32) -> (r: u64)
    ensures
        r == a * b,
{
    assert(a * b <= 0xffff_ffff * 0xffff_ffff) by (nonlinear_arith)
        requires
            a <= 0xffff_ffff,
            b <= 0xffff_ffff,
    ;
    a as u64 * b as u64
}

} // verus!
