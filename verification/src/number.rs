//! Binary64 numbers by their bit pattern, and the order among them.

use vstd::arithmetic::power2::{
    lemma_pow2_pos, lemma_pow2_strictly_increases, lemma_pow2_unfold, pow2,
};
use vstd::prelude::*;

verus! {

/// The sign bit of a binary64 number.
pub const SIGN_BIT: u64 = 0x8000_0000_0000_0000;

/// The bit pattern of positive infinity. A larger magnitude is not a number.
pub const INFINITY_BITS: u64 = 0x7FF0_0000_0000_0000;

/// The bit pattern of negative infinity.
pub const NEG_INFINITY_BITS: u64 = 0xFFF0_0000_0000_0000;

/// The bit pattern of positive zero.
pub const ZERO_BITS: u64 = 0;

/// The bit pattern of one.
pub const ONE_BITS: u64 = 0x3FF0_0000_0000_0000;

/// Two to the power 52: the weight of the lowest bit of the exponent, and of
/// the leading bit of the significand, which the bits do not hold.
pub const HIDDEN_BIT: u64 = 0x0010_0000_0000_0000;

/// An IEEE 754 binary64 number, held by its 64 bits: one sign bit, then
/// eleven bits of exponent and fifty-two of fraction.
#[derive(Clone, Copy, Debug)]
pub struct Binary64 {
    pub bits: u64,
}

impl Binary64 {
    /// Whether the sign bit is set.
    pub open spec fn negative(self) -> bool {
        self.bits >= SIGN_BIT
    }

    /// The bits without the sign, read as an integer.
    pub open spec fn magnitude(self) -> int {
        if self.bits >= SIGN_BIT {
            self.bits - SIGN_BIT
        } else {
            self.bits as int
        }
    }

    /// Whether the bits hold no number.
    pub open spec fn nan(self) -> bool {
        self.magnitude() > INFINITY_BITS
    }

    /// The place of a number in the order of all numbers: magnitudes grow
    /// with the value they encode, the sign mirrors them, and the two zeros
    /// share the place 0.
    pub open spec fn rank(self) -> int {
        if self.negative() {
            -self.magnitude()
        } else {
            self.magnitude()
        }
    }

    /// `self > other` as IEEE 754 has it: false as soon as either side is
    /// not a number.
    pub open spec fn above(self, other: Binary64) -> bool {
        !self.nan() && !other.nan() && self.rank() > other.rank()
    }

    /// Whether both are the same number: the same bits, or neither a number.
    /// The bits of what is not a number are left open by the arithmetic.
    pub open spec fn same(self, other: Binary64) -> bool {
        self.bits == other.bits || (self.nan() && other.nan())
    }

    /// `self < other` as IEEE 754 has it.
    pub open spec fn below(self, other: Binary64) -> bool {
        other.above(self)
    }

    /// The exponent field: the eleven bits behind the sign.
    pub open spec fn exponent(self) -> int {
        self.magnitude() / (HIDDEN_BIT as int)
    }

    /// The fraction field: the lowest fifty-two bits.
    pub open spec fn fraction(self) -> int {
        self.magnitude() % (HIDDEN_BIT as int)
    }

    /// The absolute value of the number, in units of two to the power -1074,
    /// the smallest number above zero. With the exponent field at 0 the
    /// fraction counts those units; otherwise the significand is the fraction
    /// behind a leading one, and each step of the exponent doubles it.
    /// Infinity is read as two to the power 1024.
    pub open spec fn size(self) -> int {
        if self.exponent() == 0 {
            self.fraction()
        } else {
            (HIDDEN_BIT + self.fraction()) * pow2((self.exponent() - 1) as nat)
        }
    }

    /// The value of the number, in the same units.
    pub open spec fn value(self) -> int {
        if self.negative() {
            -self.size()
        } else {
            self.size()
        }
    }

    /// Whether the number is zero, of either sign.
    pub open spec fn is_zero(self) -> bool {
        self.magnitude() == 0
    }

    /// Whether the number lies in the half-open range from 0 to 1.
    pub open spec fn in_unit_range(self) -> bool {
        0 <= self.rank() < ONE_BITS
    }

    /// The number with the given bits.
    pub fn from_bits(bits: u64) -> (r: Binary64)
        ensures
            r.bits == bits,
    {
        Binary64 { bits }
    }

    /// The bits of the number.
    pub fn to_bits(self) -> (bits: u64)
        ensures
            bits == self.bits,
    {
        self.bits
    }

    /// Positive zero.
    pub fn zero() -> (r: Binary64)
        ensures
            r.bits == ZERO_BITS,
    {
        Binary64 { bits: ZERO_BITS }
    }

    /// Negative infinity, which no number is below.
    pub fn neg_infinity() -> (r: Binary64)
        ensures
            r.bits == NEG_INFINITY_BITS,
    {
        Binary64 { bits: NEG_INFINITY_BITS }
    }

    /// Whether the bits hold no number.
    pub fn is_nan(self) -> (r: bool)
        ensures
            r == self.nan(),
    {
        let magnitude: u64 = if self.bits >= SIGN_BIT {
            self.bits - SIGN_BIT
        } else {
            self.bits
        };
        magnitude > INFINITY_BITS
    }

    /// Whether `self > other`.
    pub fn gt(self, other: Binary64) -> (r: bool)
        ensures
            r == self.above(other),
    {
        if self.is_nan() || other.is_nan() {
            return false;
        }
        let a_neg: bool = self.bits >= SIGN_BIT;
        let b_neg: bool = other.bits >= SIGN_BIT;
        let a: u64 = if a_neg { self.bits - SIGN_BIT } else { self.bits };
        let b: u64 = if b_neg { other.bits - SIGN_BIT } else { other.bits };
        if a_neg {
            if b_neg {
                a < b
            } else {
                false
            }
        } else {
            if b_neg {
                a > 0 || b > 0
            } else {
                a > b
            }
        }
    }

    /// Whether `self < other`.
    pub fn lt(self, other: Binary64) -> (r: bool)
        ensures
            r == self.below(other),
    {
        other.gt(self)
    }
}

/// A greater magnitude encodes a greater absolute value.
pub proof fn size_grows_with_magnitude(a: Binary64, b: Binary64)
    requires
        a.magnitude() < b.magnitude(),
    ensures
        a.size() < b.size(),
{
    let h = HIDDEN_BIT as int;
    let (ea, fa) = (a.exponent(), a.fraction());
    let (eb, fb) = (b.exponent(), b.fraction());
    assert(a.magnitude() == h * ea + fa && 0 <= fa < h && 0 <= ea);
    assert(b.magnitude() == h * eb + fb && 0 <= fb < h && 0 <= eb);
    assert(ea <= eb);
    if ea == eb {
        if ea > 0 {
            let p = pow2((ea - 1) as nat) as int;
            lemma_pow2_pos((ea - 1) as nat);
            assert((h + fa) * p < (h + fb) * p) by (nonlinear_arith)
                requires
                    fa < fb,
                    p > 0,
            ;
        }
    } else {
        let pb = pow2((eb - 1) as nat) as int;
        lemma_pow2_pos((eb - 1) as nat);
        assert(h * pb <= (h + fb) * pb) by (nonlinear_arith)
            requires
                0 <= fb,
                pb > 0,
        ;
        if ea == 0 {
            assert(h <= h * pb) by (nonlinear_arith)
                requires
                    h > 0,
                    pb >= 1,
            ;
        } else {
            let pa = pow2((ea - 1) as nat) as int;
            let qa = pow2(ea as nat) as int;
            lemma_pow2_pos((ea - 1) as nat);
            lemma_pow2_unfold(ea as nat);
            assert((h + fa) * pa < h * (2 * pa)) by (nonlinear_arith)
                requires
                    fa < h,
                    pa > 0,
            ;
            if ea < eb - 1 {
                lemma_pow2_strictly_increases(ea as nat, (eb - 1) as nat);
            }
            assert(h * qa <= h * pb) by (nonlinear_arith)
                requires
                    h > 0,
                    qa <= pb,
            ;
        }
    }
}

/// The order of the ranks is the order of the values that the bits encode:
/// what `above` and `below` compare is the numbers themselves.
pub proof fn rank_orders_values(a: Binary64, b: Binary64)
    requires
        !a.nan(),
        !b.nan(),
    ensures
        a.rank() < b.rank() <==> a.value() < b.value(),
        a.rank() == b.rank() <==> a.value() == b.value(),
{
    let zero = Binary64 { bits: ZERO_BITS };
    assert(zero.magnitude() == 0 && zero.size() == 0);
    if a.magnitude() > 0 {
        size_grows_with_magnitude(zero, a);
    }
    if b.magnitude() > 0 {
        size_grows_with_magnitude(zero, b);
    }
    if a.magnitude() < b.magnitude() {
        size_grows_with_magnitude(a, b);
    }
    if b.magnitude() < a.magnitude() {
        size_grows_with_magnitude(b, a);
    }
    assert(a.fraction() >= 0 && b.fraction() >= 0);
}

} // verus!
