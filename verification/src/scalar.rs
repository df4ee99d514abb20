//! Single-precision numbers as the library sees them.
//!
//! The tracer never does arithmetic on a number: it carries it, and it decides
//! by comparing. A [`Scalar`] is therefore the 32-bit pattern of an IEEE 754
//! single-precision value, and the comparisons below are defined on that
//! pattern. A caller obtains the pattern from the machine number (its
//! `to_bits`) and turns a result back with `from_bits`.
use vstd::arithmetic::power2::{lemma2_to64, lemma_pow2_pos, lemma_pow2_strictly_increases, pow2};
use vstd::prelude::*;

verus! {

/// The sign bit of a pattern.
pub const SIGN_BIT: u32 = 0x8000_0000;

/// The pattern of positive infinity. A larger magnitude is not a number.
pub const INFINITY_BITS: u32 = 0x7f80_0000;

/// The pattern of `1.0`.
pub const ONE_BITS: u32 = 0x3f80_0000;

/// The bit pattern of one single-precision value.
///
/// `==` on this type is identity of patterns: it tells `0.0` from `-0.0` and
/// calls a NaN equal to itself. Equality of the numbers is [`Scalar::same`].
#[derive(Clone, Copy, Debug, PartialEq, Eq, Structural)]
pub struct Scalar {
    pub bits: u32,
}

impl Scalar {
    /// The sign bit is set (of a zero, an infinity or a NaN too).
    pub open spec fn negative(self) -> bool {
        self.bits >= SIGN_BIT
    }

    /// The pattern without its sign bit.
    pub open spec fn magnitude(self) -> int {
        if self.bits >= SIGN_BIT {
            self.bits - SIGN_BIT
        } else {
            self.bits as int
        }
    }

    /// The pattern stands for no number.
    pub open spec fn nan(self) -> bool {
        self.magnitude() > INFINITY_BITS
    }

    /// The pattern stands for a number that is not an infinity.
    pub open spec fn finite(self) -> bool {
        self.magnitude() < INFINITY_BITS
    }

    /// The place of the value among all values: patterns that are numbers are
    /// ordered as their keys are, and two of them are the same number exactly
    /// when their keys are equal (both zeros have key 0).
    pub open spec fn key(self) -> int {
        if self.negative() {
            -self.magnitude()
        } else {
            self.magnitude()
        }
    }

    /// The larger of `self` and 0: 0 for a negative number and for what is
    /// no number, else the number itself.
    pub open spec fn positive(self) -> Scalar {
        if self.nan() || self.below(Scalar { bits: 0 }) {
            Scalar { bits: 0 }
        } else {
            self
        }
    }

    /// The number in `[0, 1]` that is nearest to `self`: 0 for a negative
    /// number, 1 for a number above 1, the number itself between them. What
    /// is no number shows as 0.
    pub open spec fn unit(self) -> Scalar {
        if self.nan() || self.below(Scalar { bits: 0 }) {
            Scalar { bits: 0 }
        } else if (Scalar { bits: ONE_BITS }).below(self) {
            Scalar { bits: ONE_BITS }
        } else {
            self
        }
    }

    /// The exponent field of the pattern, from 0 to 255.
    pub open spec fn exponent(self) -> int {
        self.magnitude() / 0x80_0000
    }

    /// The digits of a finite value as a whole number below `2^24`: the
    /// fraction field, with the leading one that the pattern leaves out of
    /// every value but the smallest ones.
    pub open spec fn significand(self) -> int {
        if self.exponent() == 0 {
            self.magnitude() % 0x80_0000
        } else {
            self.magnitude() % 0x80_0000 + 0x80_0000
        }
    }

    /// The power of two by which the digits are scaled: a finite pattern
    /// stands for the number `significand() * 2^scale()`, negated where the
    /// sign bit is set.
    pub open spec fn scale(self) -> int {
        if self.exponent() == 0 {
            -149
        } else {
            self.exponent() - 150
        }
    }

    /// The size of a finite value in units of `2^-149`, the smallest
    /// positive value: a whole number.
    pub open spec fn size(self) -> int {
        self.significand() * pow2((self.scale() + 149) as nat)
    }

    /// A finite value in units of `2^-149`.
    pub open spec fn value(self) -> int {
        if self.negative() {
            -self.size()
        } else {
            self.size()
        }
    }

    /// `self < other` as numbers; false when either is a NaN.
    pub open spec fn below(self, other: Scalar) -> bool {
        !self.nan() && !other.nan() && self.key() < other.key()
    }

    /// `self <= other` as numbers; false when either is a NaN.
    pub open spec fn at_most(self, other: Scalar) -> bool {
        !self.nan() && !other.nan() && self.key() <= other.key()
    }

    /// `self == other` as numbers; false when either is a NaN.
    pub open spec fn same_number(self, other: Scalar) -> bool {
        !self.nan() && !other.nan() && self.key() == other.key()
    }

    /// The pattern with the sign bit flipped.
    pub open spec fn negated(self) -> Scalar {
        if self.bits >= SIGN_BIT {
            Scalar { bits: (self.bits - SIGN_BIT) as u32 }
        } else {
            Scalar { bits: (self.bits + SIGN_BIT) as u32 }
        }
    }

    /// The pattern with the sign bit cleared.
    pub open spec fn absolute(self) -> Scalar {
        Scalar { bits: self.magnitude() as u32 }
    }

    pub fn from_bits(bits: u32) -> (r: Scalar)
        ensures
            r.bits == bits,
    {
        Scalar { bits }
    }

    pub fn to_bits(self) -> (r: u32)
        ensures
            r == self.bits,
    {
        self.bits
    }

    /// `0.0`.
    pub fn zero() -> (r: Scalar)
        ensures
            r.bits == 0,
            r.key() == 0,
            !r.nan(),
    {
        Scalar { bits: 0 }
    }

    /// `1.0`.
    pub fn one() -> (r: Scalar)
        ensures
            r.bits == ONE_BITS,
            r.key() == ONE_BITS,
            !r.nan(),
    {
        Scalar { bits: ONE_BITS }
    }

    fn magnitude_bits(self) -> (r: u32)
        ensures
            r == self.magnitude(),
            r < SIGN_BIT,
    {
        if self.bits >= SIGN_BIT {
            self.bits - SIGN_BIT
        } else {
            self.bits
        }
    }

    fn key_value(self) -> (r: i64)
        ensures
            r == self.key(),
    {
        let magnitude: u32 = self.magnitude_bits();
        if self.bits >= SIGN_BIT {
            0i64 - (magnitude as i64)
        } else {
            magnitude as i64
        }
    }

    pub fn is_nan(self) -> (r: bool)
        ensures
            r == self.nan(),
    {
        self.magnitude_bits() > INFINITY_BITS
    }

    pub fn is_finite(self) -> (r: bool)
        ensures
            r == self.finite(),
    {
        self.magnitude_bits() < INFINITY_BITS
    }

    /// `max(0, self)`; see [`Scalar::positive`].
    pub fn positive_part(self) -> (r: Scalar)
        ensures
            r == self.positive(),
            !r.nan(),
            0 <= r.key(),
    {
        if self.is_nan() || self.lt(Scalar::zero()) {
            Scalar::zero()
        } else {
            self
        }
    }

    /// `self` brought into `[0, 1]`; see [`Scalar::unit`].
    pub fn clamp_unit(self) -> (r: Scalar)
        ensures
            r == self.unit(),
            !r.nan(),
            0 <= r.key() <= ONE_BITS,
    {
        if self.is_nan() || self.lt(Scalar::zero()) {
            Scalar::zero()
        } else if self.gt(Scalar::one()) {
            Scalar::one()
        } else {
            self
        }
    }

    /// Whether the sign bit is set.
    pub fn is_negative(self) -> (r: bool)
        ensures
            r == self.negative(),
    {
        self.bits >= SIGN_BIT
    }

    /// The digits and the scale of the value; see [`Scalar::significand`]
    /// and [`Scalar::scale`].
    pub fn digits(self) -> (r: (u32, i32))
        ensures
            r.0 == self.significand(),
            r.1 == self.scale(),
            r.0 < 0x100_0000,
            -149 <= r.1 <= 105,
    {
        let magnitude: u32 = self.magnitude_bits();
        let exponent: u32 = magnitude / 0x80_0000;
        let fraction: u32 = magnitude % 0x80_0000;
        if exponent == 0 {
            (fraction, -149i32)
        } else {
            (fraction + 0x80_0000, (exponent as i32) - 150)
        }
    }

    /// `self < other`.
    pub fn lt(self, other: Scalar) -> (r: bool)
        ensures
            r == self.below(other),
    {
        !self.is_nan() && !other.is_nan() && self.key_value() < other.key_value()
    }

    /// `self <= other`.
    pub fn le(self, other: Scalar) -> (r: bool)
        ensures
            r == self.at_most(other),
    {
        !self.is_nan() && !other.is_nan() && self.key_value() <= other.key_value()
    }

    /// `self > other`.
    pub fn gt(self, other: Scalar) -> (r: bool)
        ensures
            r == other.below(self),
    {
        other.lt(self)
    }

    /// `self >= other`.
    pub fn ge(self, other: Scalar) -> (r: bool)
        ensures
            r == other.at_most(self),
    {
        other.le(self)
    }

    /// `self == other` as numbers: `0.0` and `-0.0` are the same, a NaN is the
    /// same as nothing.
    pub fn same(self, other: Scalar) -> (r: bool)
        ensures
            r == self.same_number(other),
    {
        !self.is_nan() && !other.is_nan() && self.key_value() == other.key_value()
    }

    /// `-self`: the same magnitude on the other side of zero.
    pub fn neg(self) -> (r: Scalar)
        ensures
            r == self.negated(),
            r.magnitude() == self.magnitude(),
            r.negative() == !self.negative(),
            r.key() == -self.key(),
    {
        if self.bits >= SIGN_BIT {
            Scalar { bits: self.bits - SIGN_BIT }
        } else {
            Scalar { bits: self.bits + SIGN_BIT }
        }
    }

    /// `|self|`: the same magnitude, never negative.
    pub fn abs(self) -> (r: Scalar)
        ensures
            r == self.absolute(),
            r.magnitude() == self.magnitude(),
            !r.negative(),
            r.key() == self.magnitude(),
    {
        Scalar { bits: self.magnitude_bits() }
    }
}

/// Among numbers `<` is a strict total order and `<=` is its reflexive
/// closure; a NaN compares with nothing, itself included.
pub proof fn lemma_order(a: Scalar, b: Scalar, c: Scalar)
    ensures
        !a.below(a),
        a.below(b) && b.below(c) ==> a.below(c),
        a.at_most(b) <==> a.below(b) || a.same_number(b),
        !a.nan() && !b.nan() ==> (a.below(b) || a.same_number(b) || b.below(a)),
        a.nan() ==> !a.below(b) && !b.below(a) && !a.at_most(b) && !b.at_most(a)
            && !a.same_number(a),
        a.same_number(b) && a != b ==> a.key() == 0,
{
}

/// Of two finite patterns, the one with the larger magnitude stands for the
/// value of the larger size.
proof fn lemma_size_grows_with_magnitude(a: Scalar, b: Scalar)
    requires
        a.finite(),
        b.finite(),
        a.magnitude() < b.magnitude(),
    ensures
        0 <= a.size() < b.size(),
{
    let ea = a.exponent();
    let eb = b.exponent();
    let fa = a.magnitude() % 0x80_0000;
    let fb = b.magnitude() % 0x80_0000;
    assert(a.magnitude() == 0x80_0000 * ea + fa && b.magnitude() == 0x80_0000 * eb + fb);
    assert(0 <= ea <= eb <= 254);
    let pa = pow2((a.scale() + 149) as nat) as int;
    let pb = pow2((b.scale() + 149) as nat) as int;
    lemma_pow2_pos((a.scale() + 149) as nat);
    lemma_pow2_pos((b.scale() + 149) as nat);
    lemma2_to64();
    assert(0 <= a.significand() * pa) by (nonlinear_arith)
        requires
            0 <= a.significand(),
            0 < pa,
    ;
    if ea == eb {
        assert(fa < fb);
        assert(pa == pb);
        assert(a.significand() * pa < b.significand() * pa) by (nonlinear_arith)
            requires
                a.significand() < b.significand(),
                0 < pa,
        ;
    } else {
        // The smaller exponent keeps the value under the next power of two,
        // which the larger exponent reaches.
        assert(eb >= 1);
        assert(b.scale() + 149 == eb - 1);
        if ea == 0 {
            assert(pa == 1);
            assert(a.size() < 0x80_0000);
            assert(0x80_0000 * 1 <= b.significand() * pb) by (nonlinear_arith)
                requires
                    0x80_0000 <= b.significand(),
                    1 <= pb,
            ;
        } else {
            assert(a.scale() + 149 == ea - 1);
            if ea < eb - 1 {
                lemma_pow2_strictly_increases(ea as nat, (eb - 1) as nat);
            }
            vstd::arithmetic::power2::lemma_pow2_unfold(ea as nat);
            assert(pow2(ea as nat) == 2 * pa);
            assert(pow2(ea as nat) <= pb);
            assert(a.significand() * pa < 0x100_0000 * pa) by (nonlinear_arith)
                requires
                    a.significand() < 0x100_0000,
                    0 < pa,
            ;
            assert(0x100_0000 * pa == 0x80_0000 * (2 * pa)) by (nonlinear_arith);
            assert(0x80_0000 * (2 * pa) <= b.significand() * pb) by (nonlinear_arith)
                requires
                    0x80_0000 <= b.significand(),
                    0 < 2 * pa <= pb,
            ;
        }
    }
}

/// The comparisons on patterns are the comparisons of the values that the
/// patterns stand for.
pub proof fn lemma_order_is_by_value(a: Scalar, b: Scalar)
    requires
        a.finite(),
        b.finite(),
    ensures
        a.below(b) <==> a.value() < b.value(),
        a.at_most(b) <==> a.value() <= b.value(),
        a.same_number(b) <==> a.value() == b.value(),
        a.key() == 0 <==> a.value() == 0,
{
    if a.magnitude() < b.magnitude() {
        lemma_size_grows_with_magnitude(a, b);
    } else if b.magnitude() < a.magnitude() {
        lemma_size_grows_with_magnitude(b, a);
    } else {
        assert(a.size() == b.size());
    }
    let zero = Scalar { bits: 0 };
    assert(zero.size() == 0) by {
        assert(zero.significand() == 0);
        assert(0 * pow2((zero.scale() + 149) as nat) == 0);
    }
    if 0 < a.magnitude() {
        lemma_size_grows_with_magnitude(zero, a);
    } else {
        assert(a.size() == zero.size());
    }
    if 0 < b.magnitude() {
        lemma_size_grows_with_magnitude(zero, b);
    } else {
        assert(b.size() == zero.size());
    }
}

} // verus!
