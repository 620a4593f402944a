//! Numbers of seconds: laws on their values and bounds.
use vstd::prelude::*;

use crate::double::{magnitude, pattern_order_is_value_order, Double};

verus! {

/// Which numbers are positive, finite or none, by their bits: the sign comes
/// first, and what is beyond the bits of infinity is no number.
pub proof fn which_numbers_are_positive(number: Double)
    ensures
        number.positive() <==> 0 < number.bits <= 0x7FF0_0000_0000_0000,
        number.finite() <==> number.bits < 0x7FF0_0000_0000_0000 || (0x8000_0000_0000_0000
            <= number.bits < 0xFFF0_0000_0000_0000),
        number.not_a_number() <==> 0x7FF0_0000_0000_0000 < number.bits < 0x8000_0000_0000_0000
            || number.bits > 0xFFF0_0000_0000_0000,
        number.bits < 0x8000_0000_0000_0000 ==> number.units() == magnitude(number.bits as int),
        number.bits >= 0x8000_0000_0000_0000 ==> number.units() == -magnitude(
            number.bits - 0x8000_0000_0000_0000,
        ),
{
    values_double_with_the_exponent(0);
    if !number.negative() {
        pattern_order_is_value_order(0, number.bits as int);
    }
}

/// What the bits of a number without its sign stand for, in the smallest unit that
/// there is: small ones are their own value, and from there on the value doubles
/// with every step of the exponent and is spread evenly in between.
pub proof fn values_double_with_the_exponent(pattern: int)
    requires
        0 <= pattern,
    ensures
        pattern < 0x20_0000_0000_0000 ==> magnitude(pattern) == pattern,
        pattern >= 0x10_0000_0000_0000 ==> magnitude(pattern + 0x10_0000_0000_0000) == 2
            * magnitude(pattern),
{
    let step = 0x10_0000_0000_0000int;
    vstd::arithmetic::power2::lemma2_to64();
    if pattern >= step {
        let exponent = pattern / step;
        let fraction = pattern % step;
        vstd::arithmetic::div_mod::lemma_fundamental_div_mod(pattern, step);
        assert(pattern == step * exponent + fraction);
        assert(pattern + step == (exponent + 1) * step + fraction) by (nonlinear_arith)
            requires
                pattern == step * exponent + fraction,
        ;
        vstd::arithmetic::div_mod::lemma_fundamental_div_mod_converse(
            pattern + step,
            step,
            exponent + 1,
            fraction,
        );
        vstd::arithmetic::power2::lemma_pow2_unfold(exponent as nat);
        assert(exponent >= 1);
        if pattern < 2 * step {
            assert(exponent == 1);
            assert((fraction + step) * 1 == pattern);
        }
        let low = vstd::arithmetic::power2::pow2((exponent - 1) as nat) as int;
        assert((fraction + step) * (2 * low) == 2 * ((fraction + step) * low)) by (nonlinear_arith);
    }
}

/// A bound from below is kept and is the only thing that is changed: a number that
/// is at least as large stays, a smaller one or none becomes the bound.
pub proof fn a_lower_bound_is_kept(number: Double, floor: Double)
    requires
        floor.finite(),
    ensures
        number.finite() && number.units() >= floor.units() ==> number.at_least(floor) == number,
        number.finite() && number.units() < floor.units() ==> number.at_least(floor) == floor,
        number.not_a_number() ==> number.at_least(floor) == floor,
        number.bits == 0x7FF0_0000_0000_0000 ==> number.at_least(floor) == number,
        number.bits == 0xFFF0_0000_0000_0000 ==> number.at_least(floor) == floor,
{
}

/// A range is kept and is the only thing that is changed: a number inside stays,
/// one outside becomes the nearer end, and what is not finite becomes what stands
/// in for it, as far as that is inside.
pub proof fn a_range_is_kept(number: Double, fallback: Double, low: Double, high: Double)
    requires
        low.finite(),
        high.finite(),
        low.units() <= high.units(),
    ensures
        number.finite() && low.units() <= number.units() <= high.units() ==> number.normalized(
            fallback,
            low,
            high,
        ) == number,
        number.finite() && number.units() < low.units() ==> number.normalized(fallback, low, high)
            == low,
        number.finite() && number.units() > high.units() ==> number.normalized(fallback, low, high)
            == high,
        !number.finite() && low.units() <= fallback.units() <= high.units() ==> number.normalized(
            fallback,
            low,
            high,
        ) == fallback,
{
}

} // verus!
