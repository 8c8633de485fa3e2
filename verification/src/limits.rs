//! Sums and products that may not fit into machine numbers.

use vstd::prelude::*;

verus! {

/// The product in full.
pub fn wide_product(a: usize, b: usize) -> (r: u128)
    ensures
        r == a * b,
{
    proof {
        assert(a * b <= 0xFFFF_FFFF_FFFF_FFFF * 0xFFFF_FFFF_FFFF_FFFF) by (nonlinear_arith)
            requires
                a <= 0xFFFF_FFFF_FFFF_FFFF,
                b <= 0xFFFF_FFFF_FFFF_FFFF,
        ;
    }
    (a as u128) * (b as u128)
}

/// Whether a product is a machine number.
pub fn product_fits(a: usize, b: usize) -> (r: bool)
    ensures
        r == (a * b <= usize::MAX),
{
    a.checked_mul(b).is_some()
}

/// Whether a sum is a machine number.
pub fn sum_fits(a: usize, b: usize, c: usize) -> (r: bool)
    ensures
        r == (a + b + c <= usize::MAX),
{
    match a.checked_add(b) {
        Some(ab) => ab.checked_add(c).is_some(),
        None => false,
    }
}

} // verus!
