//! Division of integers with rounding to the nearest integer.

use vstd::prelude::*;

verus! {

/// `numerator / denominator` rounded to the nearest integer, halves upwards.
pub open spec fn rounded_div(numerator: int, denominator: int) -> int
    recommends
        denominator > 0,
{
    (2 * numerator + denominator) / (2 * denominator)
}

/// The rounded quotient is the one integer within half a unit of the exact
/// quotient, the upper half included and the lower not:
/// `quotient - 1/2 <= numerator / denominator < quotient + 1/2`.
pub proof fn lemma_rounded_div_is_nearest(numerator: int, denominator: int, quotient: int)
    requires
        denominator > 0,
    ensures
        quotient == rounded_div(numerator, denominator) <==> {
            &&& (2 * quotient - 1) * denominator <= 2 * numerator
            &&& 2 * numerator < (2 * quotient + 1) * denominator
        },
{
    let rounded = rounded_div(numerator, denominator);
    assert({
        &&& (2 * rounded - 1) * denominator <= 2 * numerator
        &&& 2 * numerator < (2 * rounded + 1) * denominator
    }) by (nonlinear_arith)
        requires
            denominator > 0,
            rounded == (2 * numerator + denominator) / (2 * denominator),
    ;
    if (2 * quotient - 1) * denominator <= 2 * numerator && 2 * numerator < (2 * quotient + 1)
        * denominator {
        assert(quotient == rounded) by (nonlinear_arith)
            requires
                denominator > 0,
                (2 * rounded - 1) * denominator <= 2 * numerator,
                2 * numerator < (2 * rounded + 1) * denominator,
                (2 * quotient - 1) * denominator <= 2 * numerator,
                2 * numerator < (2 * quotient + 1) * denominator,
        ;
    }
}

/// A larger denominator gives no larger rounded quotient.
pub proof fn lemma_rounded_div_falls_with_denominator(numerator: int, smaller: int, larger: int)
    requires
        numerator >= 0,
        0 < smaller <= larger,
    ensures
        rounded_div(numerator, larger) <= rounded_div(numerator, smaller),
{
    let low = rounded_div(numerator, larger);
    let high = rounded_div(numerator, smaller);
    lemma_rounded_div_is_nearest(numerator, larger, low);
    lemma_rounded_div_is_nearest(numerator, smaller, high);
    assert(low <= high) by (nonlinear_arith)
        requires
            numerator >= 0,
            0 < smaller <= larger,
            (2 * low - 1) * larger <= 2 * numerator,
            2 * numerator < (2 * high + 1) * smaller,
    ;
}

} // verus!
