//! Single-precision values held by their bit patterns.
//!
//! A [`Single`] is the 32-bit pattern of an IEEE 754 binary32 number: one sign
//! bit, eight exponent bits and twenty-three fraction bits.  Everything here is
//! integer arithmetic on that pattern.  The model gives each finite pattern its
//! exact value as a whole number of units of 2^-149, the spacing of the
//! smallest subnormals, and the order, the minimum, the maximum and the
//! truncation to an integer are stated over that model.

use vstd::prelude::*;
use vstd::arithmetic::div_mod::{
    lemma_basic_div, lemma_div_denominator, lemma_div_is_ordered, lemma_div_multiples_vanish,
    lemma_div_pos_is_pos,
};
use vstd::arithmetic::mul::{lemma_mul_is_associative, lemma_mul_is_commutative};
use vstd::arithmetic::power2::{
    lemma2_to64, lemma_pow2_adds, lemma_pow2_pos, lemma_pow2_strictly_increases, pow2,
};
use vstd::bits::{lemma_u32_shl_is_mul, lemma_u32_shr_is_div};

verus! {

/// The sign bit of a pattern; everything below it is the magnitude.
pub const SIGN_BIT: u32 = 0x8000_0000;

/// The magnitude of the two infinities; larger magnitudes are NaNs.
pub const INFINITY_MAGNITUDE: u32 = 0x7F80_0000;

/// The weight of the lowest exponent bit, and the implicit leading bit of a
/// normal significand.
pub const HIDDEN_BIT: u32 = 0x0080_0000;

/// An IEEE 754 binary32 value, held by its bit pattern.
#[derive(Clone, Copy, Debug, PartialEq, Eq, Structural)]
pub struct Single {
    pub bits: u32,
}

impl Single {
    /// The pattern without its sign bit.
    pub open spec fn magnitude(self) -> int {
        self.bits as int % 0x8000_0000
    }

    /// Whether the sign bit is set (also true of `-0.0` and of some NaNs).
    pub open spec fn sign(self) -> bool {
        self.bits >= 0x8000_0000u32
    }

    /// The biased exponent field, `0..=255`.
    pub open spec fn exponent(self) -> int {
        self.magnitude() / 0x80_0000
    }

    /// The fraction field, `0..2^23`.
    pub open spec fn fraction(self) -> int {
        self.magnitude() % 0x80_0000
    }

    /// Not a number: the exponent is all ones and the fraction is not zero.
    pub open spec fn spec_is_nan(self) -> bool {
        self.magnitude() > 0x7F80_0000
    }

    /// One of the two infinities.
    pub open spec fn spec_is_infinite(self) -> bool {
        self.magnitude() == 0x7F80_0000
    }

    /// A number: a zero, a subnormal or a normal value.
    pub open spec fn spec_is_finite(self) -> bool {
        self.magnitude() < 0x7F80_0000
    }

    /// The significand as an integer: the fraction, with the implicit leading
    /// bit for normal numbers.
    pub open spec fn significand(self) -> int {
        if self.exponent() == 0 {
            self.fraction()
        } else {
            0x80_0000 + self.fraction()
        }
    }

    /// The power of two that the significand is multiplied by, counted from
    /// 2^-149: zero for subnormals and for the smallest normal binade.
    pub open spec fn shift(self) -> nat {
        if self.exponent() <= 1 {
            0
        } else {
            (self.exponent() - 1) as nat
        }
    }

    /// The absolute value of a finite pattern, in units of 2^-149.
    pub open spec fn abs_units(self) -> int {
        self.significand() * pow2(self.shift())
    }

    /// The exact value of a finite pattern, in units of 2^-149.
    pub open spec fn units(self) -> int {
        if self.sign() {
            -self.abs_units()
        } else {
            self.abs_units()
        }
    }

    /// The place of a pattern that is not a NaN in the order of all such
    /// patterns: the magnitude, negated under a sign bit.  Both zeros have
    /// rank 0, the infinities the two extreme ranks.
    pub open spec fn rank(self) -> int {
        if self.sign() {
            -self.magnitude()
        } else {
            self.magnitude()
        }
    }

    /// IEEE `<`: false whenever a NaN is involved.
    pub open spec fn spec_lt(self, other: Single) -> bool {
        !self.spec_is_nan() && !other.spec_is_nan() && self.rank() < other.rank()
    }

    /// IEEE `<=`: false whenever a NaN is involved.
    pub open spec fn spec_le(self, other: Single) -> bool {
        !self.spec_is_nan() && !other.spec_is_nan() && self.rank() <= other.rank()
    }

    /// IEEE `>`: false whenever a NaN is involved.
    pub open spec fn spec_gt(self, other: Single) -> bool {
        other.spec_lt(self)
    }

    /// IEEE minimum that ignores a NaN: where one side is a NaN the other is
    /// taken, and of two equal values (the two zeros) the receiver.
    pub open spec fn spec_min(self, other: Single) -> Single {
        if self.spec_is_nan() {
            other
        } else if other.spec_lt(self) {
            other
        } else {
            self
        }
    }

    /// IEEE maximum that ignores a NaN: where one side is a NaN the other is
    /// taken, and of two equal values (the two zeros) the receiver.
    pub open spec fn spec_max(self, other: Single) -> Single {
        if self.spec_is_nan() {
            other
        } else if self.spec_lt(other) {
            other
        } else {
            self
        }
    }

    /// The value rounded toward zero and brought into the range of `i32`:
    /// 0 for a NaN, the nearer limit for whatever lies outside the range.
    pub open spec fn spec_truncate(self) -> int {
        if self.spec_is_nan() {
            0
        } else if self.spec_is_infinite() {
            if self.sign() {
                i32::MIN as int
            } else {
                i32::MAX as int
            }
        } else {
            let whole = self.abs_units() / (pow2(149) as int);
            saturate(
                if self.sign() {
                    -whole
                } else {
                    whole
                },
            )
        }
    }

    /// Wraps a bit pattern.
    pub fn from_bits(bits: u32) -> (s: Single)
        ensures
            s.bits == bits,
    {
        Single { bits }
    }

    /// The bit pattern.
    pub fn to_bits(self) -> (bits: u32)
        ensures
            bits == self.bits,
    {
        self.bits
    }

    /// Positive zero.
    pub open spec fn spec_zero() -> Single {
        Single { bits: 0 }
    }

    /// Positive zero.
    #[verifier::when_used_as_spec(spec_zero)]
    pub fn zero() -> (s: Single)
        ensures
            s == Single::spec_zero(),
    {
        Single { bits: 0 }
    }

    /// Whether the pattern is a NaN.
    #[verifier::when_used_as_spec(spec_is_nan)]
    pub fn is_nan(self) -> (r: bool)
        ensures
            r == self.spec_is_nan(),
    {
        self.bits % SIGN_BIT > INFINITY_MAGNITUDE
    }

    /// The rank as a machine integer.
    pub fn key(self) -> (k: i64)
        ensures
            k == self.rank(),
    {
        let m: i64 = (self.bits % SIGN_BIT) as i64;
        if self.bits >= SIGN_BIT {
            -m
        } else {
            m
        }
    }

    /// `self < other` as single precision compares.
    #[verifier::when_used_as_spec(spec_lt)]
    pub fn lt(self, other: Single) -> (r: bool)
        ensures
            r == self.spec_lt(other),
    {
        !self.is_nan() && !other.is_nan() && self.key() < other.key()
    }

    /// `self <= other` as single precision compares.
    #[verifier::when_used_as_spec(spec_le)]
    pub fn le(self, other: Single) -> (r: bool)
        ensures
            r == self.spec_le(other),
    {
        !self.is_nan() && !other.is_nan() && self.key() <= other.key()
    }

    /// `self > other` as single precision compares.
    #[verifier::when_used_as_spec(spec_gt)]
    pub fn gt(self, other: Single) -> (r: bool)
        ensures
            r == self.spec_gt(other),
    {
        other.lt(self)
    }

    /// The smaller of the two, passing over a NaN.
    #[verifier::when_used_as_spec(spec_min)]
    pub fn min(self, other: Single) -> (r: Single)
        ensures
            r == self.spec_min(other),
    {
        if self.is_nan() || other.lt(self) {
            other
        } else {
            self
        }
    }

    /// The larger of the two, passing over a NaN.
    #[verifier::when_used_as_spec(spec_max)]
    pub fn max(self, other: Single) -> (r: Single)
        ensures
            r == self.spec_max(other),
    {
        if self.is_nan() || self.lt(other) {
            other
        } else {
            self
        }
    }

    /// Converts to `i32` as a cast from single precision does: toward zero,
    /// saturating, a NaN to 0.
    pub fn truncate(self) -> (r: i32)
        ensures
            r == self.spec_truncate(),
    {
        let mag: u32 = self.bits % SIGN_BIT;
        let negative = self.bits >= SIGN_BIT;
        if mag > INFINITY_MAGNITUDE {
            return 0;
        }
        let e: u32 = mag / HIDDEN_BIT;
        if e < 127 {
            proof {
                lemma_whole_part_small(self);
            }
            return 0;
        }
        if e >= 158 {
            proof {
                if mag != INFINITY_MAGNITUDE {
                    lemma_whole_part_large(self);
                }
            }
            return if negative {
                i32::MIN
            } else {
                i32::MAX
            };
        }
        let sig: u32 = HIDDEN_BIT + mag % HIDDEN_BIT;
        proof {
            lemma_whole_part(self);
            lemma2_to64();
        }
        let whole: u32 = if e >= 150 {
            proof {
                let k = (e - 150) as nat;
                if k < 7 {
                    lemma_pow2_strictly_increases(k, 7);
                }
                lemma_pow2_pos(k);
                assert(sig * pow2(k) < 0x8000_0000) by (nonlinear_arith)
                    requires
                        0 <= sig < 0x100_0000,
                        0 < pow2(k) <= 0x80,
                ;
                lemma_u32_shl_is_mul(sig, (e - 150) as u32);
            }
            sig << (e - 150)
        } else {
            proof {
                lemma_u32_shr_is_div(sig, (150 - e) as u32);
                assert(sig >> ((150 - e) as u32) <= sig) by (bit_vector);
            }
            sig >> (150 - e)
        };
        if negative {
            -(whole as i32)
        } else {
            whole as i32
        }
    }
}

/// The nearest integer in the range of `i32`.
pub open spec fn saturate(v: int) -> int {
    if v < i32::MIN {
        i32::MIN as int
    } else if v > i32::MAX {
        i32::MAX as int
    } else {
        v
    }
}

/// Below exponent 127 a finite magnitude is less than one.
proof fn lemma_whole_part_small(s: Single)
    requires
        s.exponent() < 127,
    ensures
        s.abs_units() / (pow2(149) as int) == 0,
{
    let sig = s.significand();
    let k = s.shift();
    assert(pow2(24) == 0x100_0000) by {
        lemma2_to64();
    }
    assert(pow2(k) <= pow2(125)) by {
        if k < 125 {
            lemma_pow2_strictly_increases(k, 125);
        }
    }
    lemma_pow2_pos(k);
    lemma_pow2_adds(24, 125);
    assert(sig * pow2(k) < pow2(24) * pow2(125)) by (nonlinear_arith)
        requires
            0 <= sig < pow2(24),
            0 < pow2(k) <= pow2(125),
    ;
    assert(0 <= sig * pow2(k)) by (nonlinear_arith)
        requires
            0 <= sig,
            0 < pow2(k),
    ;
    lemma_basic_div(s.abs_units(), pow2(149) as int);
}

/// From exponent 158 on a finite magnitude is at least 2^31.
proof fn lemma_whole_part_large(s: Single)
    requires
        s.spec_is_finite(),
        s.exponent() >= 158,
    ensures
        s.abs_units() / (pow2(149) as int) >= 0x8000_0000,
{
    let sig = s.significand();
    let k = s.shift();
    let rest = (k - 149) as nat;
    lemma2_to64();
    lemma_pow2_adds(149, rest);
    lemma_pow2_pos(149);
    assert(pow2(rest) >= pow2(8)) by {
        if rest > 8 {
            lemma_pow2_strictly_increases(8, rest);
        }
    }
    let whole = sig * pow2(rest);
    assert(whole >= 0x80_0000 * 0x100) by (nonlinear_arith)
        requires
            whole == sig * pow2(rest),
            sig >= 0x80_0000,
            pow2(rest) >= 0x100,
    ;
    assert(s.abs_units() == whole * pow2(149)) by {
        lemma_mul_is_associative(sig, pow2(rest) as int, pow2(149) as int);
        lemma_mul_is_commutative(pow2(rest) as int, pow2(149) as int);
    }
    lemma_div_multiples_vanish(whole, pow2(149) as int);
}

/// The whole part of a finite magnitude, by the exponent: nothing below
/// exponent 127, and from there on the significand shifted by the distance of
/// the exponent from 150, to the right below it and to the left above.
pub proof fn lemma_whole_part(s: Single)
    requires
        s.spec_is_finite(),
    ensures
        s.exponent() < 127 ==> s.abs_units() / (pow2(149) as int) == 0,
        127 <= s.exponent() < 150 ==> s.abs_units() / (pow2(149) as int)
            == s.significand() / (pow2((150 - s.exponent()) as nat) as int),
        150 <= s.exponent() ==> s.abs_units() / (pow2(149) as int)
            == s.significand() * pow2((s.exponent() - 150) as nat),
{
    let sig = s.significand();
    let e = s.exponent();
    let k = s.shift();
    lemma_pow2_pos(149);
    if e < 127 {
        lemma_whole_part_small(s);
    } else if e >= 150 {
        let rest = (e - 150) as nat;
        lemma_pow2_adds(rest, 149);
        lemma_mul_is_associative(sig, pow2(rest) as int, pow2(149) as int);
        lemma_div_multiples_vanish(sig * pow2(rest), pow2(149) as int);
    } else {
        let gap = (150 - e) as nat;
        lemma_pow2_adds(k, gap);
        lemma_pow2_pos(k);
        lemma_pow2_pos(gap);
        lemma_div_denominator(sig * pow2(k), pow2(k) as int, pow2(gap) as int);
        lemma_div_multiples_vanish(sig, pow2(k) as int);
    }
}

/// A larger magnitude stands for a larger absolute value.
pub proof fn lemma_abs_units_increase(a: Single, b: Single)
    requires
        a.magnitude() < b.magnitude(),
    ensures
        0 <= a.abs_units() < b.abs_units(),
{
    let (ea, eb) = (a.exponent(), b.exponent());
    let (ka, kb) = (a.shift(), b.shift());
    let (sa, sb) = (a.significand(), b.significand());
    lemma_pow2_pos(ka);
    lemma_pow2_pos(kb);
    assert(0 <= sa * pow2(ka)) by (nonlinear_arith)
        requires
            0 <= sa,
            0 < pow2(ka),
    ;
    if ea == eb {
        assert(sa * pow2(ka) < sb * pow2(ka)) by (nonlinear_arith)
            requires
                sa < sb,
                0 < pow2(ka),
        ;
    } else if eb <= 1 {
        assert(pow2(0) == 1) by {
            lemma2_to64();
        }
    } else {
        assert(pow2(ka + 1) <= pow2(kb)) by {
            if ka + 1 < kb {
                lemma_pow2_strictly_increases(ka + 1, kb);
            }
        }
        assert(pow2(ka + 1) == 2 * pow2(ka)) by {
            lemma_pow2_adds(1, ka);
            lemma2_to64();
        }
        assert(sa * pow2(ka) < sb * pow2(kb)) by (nonlinear_arith)
            requires
                0 <= sa < 0x100_0000,
                0x80_0000 <= sb,
                0 < pow2(ka),
                2 * pow2(ka) <= pow2(kb),
        ;
    }
}

/// The order of ranks is the order of values: of two finite patterns the one
/// with the smaller rank stands for the smaller number, and equal ranks stand
/// for equal numbers.
pub proof fn lemma_rank_orders_values(a: Single, b: Single)
    requires
        a.spec_is_finite(),
        b.spec_is_finite(),
    ensures
        a.rank() < b.rank() <==> a.units() < b.units(),
        a.rank() == b.rank() <==> a.units() == b.units(),
{
    let zero = Single { bits: 0 };
    assert(zero.abs_units() == 0) by {
        assert(zero.significand() == 0);
        assert(0 * pow2(zero.shift()) == 0);
    }
    if a.magnitude() < b.magnitude() {
        lemma_abs_units_increase(a, b);
    } else if b.magnitude() < a.magnitude() {
        lemma_abs_units_increase(b, a);
    } else {
        assert(a.abs_units() == b.abs_units());
    }
    if a.magnitude() > 0 {
        lemma_abs_units_increase(zero, a);
    } else {
        assert(a.abs_units() == zero.abs_units());
    }
    if b.magnitude() > 0 {
        lemma_abs_units_increase(zero, b);
    } else {
        assert(b.abs_units() == zero.abs_units());
    }
}

/// Truncation keeps the order: of two values the smaller never has the
/// larger whole part.
pub proof fn lemma_truncate_keeps_order(a: Single, b: Single)
    requires
        a.spec_le(b),
    ensures
        a.spec_truncate() <= b.spec_truncate(),
{
    let unit = pow2(149) as int;
    lemma_pow2_pos(149);
    lemma_abs_units_order(a, b);
    lemma_abs_units_order(b, a);
    lemma_div_pos_is_pos(a.abs_units(), unit);
    lemma_div_pos_is_pos(b.abs_units(), unit);
    if a.sign() == b.sign() {
        if a.magnitude() <= b.magnitude() {
            lemma_div_is_ordered(a.abs_units(), b.abs_units(), unit);
        } else {
            lemma_div_is_ordered(b.abs_units(), a.abs_units(), unit);
        }
    } else if !a.sign() {
        assert(a.magnitude() == 0 && b.magnitude() == 0);
        assert(a.abs_units() == 0 && b.abs_units() == 0) by {
            assert(a.significand() == 0 && b.significand() == 0);
            assert(0 * pow2(a.shift()) == 0);
            assert(0 * pow2(b.shift()) == 0);
        }
    }
}

/// A magnitude that is not smaller stands for an absolute value that is not
/// smaller, and none is negative.
proof fn lemma_abs_units_order(a: Single, b: Single)
    ensures
        0 <= a.abs_units(),
        a.magnitude() <= b.magnitude() ==> a.abs_units() <= b.abs_units(),
{
    lemma_pow2_pos(a.shift());
    assert(0 <= a.significand() * pow2(a.shift())) by (nonlinear_arith)
        requires
            0 <= a.significand(),
            0 < pow2(a.shift()),
    ;
    if a.magnitude() < b.magnitude() {
        lemma_abs_units_increase(a, b);
    }
}

} // verus!
