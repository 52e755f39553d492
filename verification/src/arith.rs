//! Integer helpers of the transition code.

use vstd::prelude::*;
use vstd::arithmetic::div_mod::{
    lemma_div_is_ordered, lemma_div_multiples_vanish, lemma_fundamental_div_mod,
    lemma_fundamental_div_mod_converse,
};

verus! {

/// Largest magnitude that the wide intermediate values of a transition reach.
pub(crate) const WIDE_LIMIT: i128 = 0x1_0000_0000_0000_0000_0000_0000_0000;

/// Whether `a` lies in the working range of the wide arithmetic.
pub(crate) open spec fn in_wide_range(a: int) -> bool {
    -WIDE_LIMIT < a < WIDE_LIMIT
}

/// Whether `a` can be held in an `i32`.
pub(crate) open spec fn fits_i32(a: int) -> bool {
    i32::MIN <= a <= i32::MAX
}

/// Quotient rounded towards negative infinity, for a positive divisor.
///
/// Machine division rounds towards zero; the rules of the simulation are
/// stated with the floor, which differs for negative dividends.
pub(crate) fn floor_div(a: i128, d: i128) -> (q: i128)
    requires
        0 < d < WIDE_LIMIT,
        in_wide_range(a as int),
    ensures
        q == a as int / d as int,
{
    if a >= 0 {
        a / d
    } else {
        let m: i128 = -a;
        let up: i128 = (m + (d - 1)) / d;
        proof {
            let r: int = (m + (d - 1)) % (d as int);
            lemma_fundamental_div_mod(m + (d - 1), d as int);
            assert((-(up as int)) * (d as int) == -((d as int) * (up as int)))
                by (nonlinear_arith);
            lemma_fundamental_div_mod_converse(a as int, d as int, -(up as int), d - 1 - r);
        }
        -up
    }
}

/// The average of `count` numbers of magnitude at most `bound`, rounded
/// down, has magnitude at most `bound`.
pub(crate) proof fn lemma_average_bounded(sum: int, count: int, bound: int)
    requires
        count > 0,
        -(count * bound) <= sum <= count * bound,
    ensures
        -bound <= sum / count <= bound,
{
    lemma_div_multiples_vanish(bound, count);
    lemma_div_multiples_vanish(-bound, count);
    assert(count * (-bound) == -(count * bound)) by (nonlinear_arith);
    lemma_div_is_ordered(sum, count * bound, count);
    lemma_div_is_ordered(count * (-bound), sum, count);
}

} // verus!
