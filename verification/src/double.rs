//! Double-precision numbers, held by their IEEE 754 bit patterns. Comparing
//! the patterns of non-negative numbers compares the numbers, so no
//! floating-point operation is needed.
use vstd::arithmetic::power2::{
    lemma_pow2_pos, lemma_pow2_strictly_increases, lemma_pow2_unfold, pow2,
};
use vstd::prelude::*;

verus! {

/// A double-precision number, by its bit pattern.
#[derive(Clone, Copy, Debug, PartialEq, Eq, Structural)]
pub struct Double {
    pub bits: u64,
}

/// 2^52: the step between one exponent and the next.
pub const EXPONENT_STEP: u64 = 0x10_0000_0000_0000;

/// The bit pattern of positive infinity.
pub const INFINITY_BITS: u64 = 0x7FF0_0000_0000_0000;

impl Double {
    /// The sign bit is set.
    pub open spec fn negative(self) -> bool {
        self.bits >= 0x8000_0000_0000_0000
    }

    /// The bit pattern without the sign bit.
    pub open spec fn unsigned_bits(self) -> int {
        if self.negative() {
            self.bits - 0x8000_0000_0000_0000
        } else {
            self.bits as int
        }
    }

    /// Neither infinite nor not-a-number.
    pub open spec fn finite(self) -> bool {
        self.unsigned_bits() < INFINITY_BITS
    }

    /// The value of a finite number, in units of 2^-1074 (the smallest
    /// positive double-precision number).
    pub open spec fn units(self) -> int {
        if self.negative() {
            -magnitude(self.unsigned_bits())
        } else {
            magnitude(self.unsigned_bits())
        }
    }

    /// Not a number.
    pub open spec fn not_a_number(self) -> bool {
        self.unsigned_bits() > INFINITY_BITS
    }

    /// Greater than zero, infinity included.
    pub open spec fn positive(self) -> bool {
        !self.negative() && !self.not_a_number() && (self.finite() ==> self.units() > 0)
    }

    /// The nearest number between `low` and `high`.
    pub open spec fn clamped(self, low: Double, high: Double) -> Double {
        if self.units() < low.units() {
            low
        } else if self.units() > high.units() {
            high
        } else {
            self
        }
    }

    /// `fallback` in place of anything but a finite number, then clamped.
    pub open spec fn normalized(self, fallback: Double, low: Double, high: Double) -> Double {
        if self.finite() {
            self.clamped(low, high)
        } else {
            fallback.clamped(low, high)
        }
    }

    /// The greater of the two; `floor` where this is not a number.
    pub open spec fn at_least(self, floor: Double) -> Double {
        if self.not_a_number() {
            floor
        } else if self.finite() {
            if self.units() < floor.units() {
                floor
            } else {
                self
            }
        } else if self.negative() {
            floor
        } else {
            self
        }
    }
}

/// The value of a bit pattern below infinity, in units of 2^-1074.
pub open spec fn magnitude(pattern: int) -> int {
    let exponent = pattern / (EXPONENT_STEP as int);
    let fraction = pattern % (EXPONENT_STEP as int);
    if exponent == 0 {
        fraction
    } else {
        (fraction + EXPONENT_STEP) * pow2((exponent - 1) as nat)
    }
}

/// Among non-negative numbers the order of the bit patterns is the order of
/// the values.
pub proof fn pattern_order_is_value_order(a: int, b: int)
    requires
        0 <= a,
        0 <= b,
    ensures
        a < b <==> magnitude(a) < magnitude(b),
{
    if a < b {
        magnitude_increases(a, b);
    } else if b < a {
        magnitude_increases(b, a);
    }
}

proof fn magnitude_increases(a: int, b: int)
    requires
        0 <= a < b,
    ensures
        magnitude(a) < magnitude(b),
{
    let step = EXPONENT_STEP as int;
    let (ea, fa) = (a / step, a % step);
    let (eb, fb) = (b / step, b % step);
    if eb == 0 {
        assert(ea == 0);
    } else {
        let pb = pow2((eb - 1) as nat);
        lemma_pow2_pos((eb - 1) as nat);
        if ea == eb {
            assert((fa + step) * pb < (fb + step) * pb) by (nonlinear_arith)
                requires
                    fa < fb,
                    pb > 0,
            ;
        } else if ea == 0 {
            assert(step <= (fb + step) * pb) by (nonlinear_arith)
                requires
                    fb >= 0,
                    pb > 0,
                    step > 0,
            ;
        } else {
            let pa = pow2((ea - 1) as nat);
            lemma_pow2_pos((ea - 1) as nat);
            lemma_pow2_unfold(ea as nat);
            if ea < eb - 1 {
                lemma_pow2_strictly_increases(ea as nat, (eb - 1) as nat);
            }
            assert((fa + step) * pa < (fb + step) * pb) by (nonlinear_arith)
                requires
                    0 <= fa < step,
                    0 <= fb,
                    pa > 0,
                    2 * pa <= pb,
            ;
        }
    }
}

impl Double {
    /// Whether the number is finite.
    pub fn is_finite(self) -> (r: bool)
        ensures
            r == self.finite(),
    {
        if self.bits >= 0x8000_0000_0000_0000 {
            self.bits - 0x8000_0000_0000_0000 < INFINITY_BITS
        } else {
            self.bits < INFINITY_BITS
        }
    }

    /// Whether the number is greater than zero.
    pub fn is_positive(self) -> (r: bool)
        ensures
            r == self.positive(),
    {
        proof {
            pattern_order_is_value_order(0, self.unsigned_bits());
        }
        0 < self.bits && self.bits <= INFINITY_BITS
    }

    fn clamp(self, low: Double, high: Double) -> (r: Double)
        requires
            self.finite(),
            low.finite() && !low.negative(),
            low.bits > 0,
            high.finite() && !high.negative(),
        ensures
            r == self.clamped(low, high),
    {
        proof {
            pattern_order_is_value_order(0, low.unsigned_bits());
            if self.unsigned_bits() > 0 {
                pattern_order_is_value_order(0, self.unsigned_bits());
            }
            pattern_order_is_value_order(self.unsigned_bits(), low.unsigned_bits());
            pattern_order_is_value_order(high.unsigned_bits(), self.unsigned_bits());
        }
        if self.bits >= 0x8000_0000_0000_0000 || self.bits < low.bits {
            low
        } else if self.bits > high.bits {
            high
        } else {
            self
        }
    }

    /// A usable number: `fallback` in place of anything but a finite number,
    /// then the nearest number between `low` and `high`.
    pub fn normalize(self, fallback: Double, low: Double, high: Double) -> (r: Double)
        requires
            fallback.finite(),
            low.finite() && !low.negative(),
            low.bits > 0,
            high.finite() && !high.negative(),
        ensures
            r == self.normalized(fallback, low, high),
    {
        if self.is_finite() {
            self.clamp(low, high)
        } else {
            fallback.clamp(low, high)
        }
    }

    /// The greater of this and the positive number `floor`.
    pub fn max_with(self, floor: Double) -> (r: Double)
        requires
            floor.finite() && !floor.negative(),
            floor.bits > 0,
        ensures
            r == self.at_least(floor),
    {
        proof {
            pattern_order_is_value_order(0, floor.unsigned_bits());
            if self.unsigned_bits() > 0 {
                pattern_order_is_value_order(0, self.unsigned_bits());
            }
            pattern_order_is_value_order(self.unsigned_bits(), floor.unsigned_bits());
        }
        if self.bits < floor.bits || self.bits > INFINITY_BITS {
            floor
        } else {
            self
        }
    }
}

/// A normalized number is finite and in its range, and stays as it is when it
/// is normalized again.
pub proof fn normalized_is_in_range_and_stable(
    number: Double,
    fallback: Double,
    low: Double,
    high: Double,
)
    requires
        fallback.finite(),
        low.finite(),
        high.finite(),
        low.units() <= high.units(),
    ensures
        number.normalized(fallback, low, high).finite(),
        low.units() <= number.normalized(fallback, low, high).units() <= high.units(),
        number.normalized(fallback, low, high).normalized(fallback, low, high) == number.normalized(
            fallback,
            low,
            high,
        ),
{
}

} // verus!
