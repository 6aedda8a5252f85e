//! IEEE 754 numbers, held as their bit patterns.
//!
//! The host hands over the bit patterns of its floating-point numbers, and takes bit patterns
//! back. The operations here are those of IEEE 754 with rounding to the nearest even pattern.
use vstd::prelude::*;

use crate::rounding::{bit_length, power_of_two, round_parts};

verus! {

/// A binary32 number.
#[derive(Copy, Clone, Debug)]
pub struct Binary32 {
    pub bits: u32,
}

/// A binary64 number.
#[derive(Copy, Clone, Debug)]
pub struct Binary64 {
    pub bits: u64,
}

/// The pattern of the binary32 infinity.
pub const INFINITY_32: u32 = 0x7F80_0000;

/// The pattern of the binary64 infinity.
pub const INFINITY_64: u64 = 0x7FF0_0000_0000_0000;

impl PartialEq for Binary32 {
    /// Whether the two numbers compare equal: the two zeros do, and NaN equals nothing.
    fn eq(&self, other: &Self) -> (equal: bool) {
        let mine = self.bits % 0x8000_0000;
        let others = other.bits % 0x8000_0000;
        !self.is_nan() && !other.is_nan() && (self.bits == other.bits || (mine == 0 && others == 0))
    }
}

impl vstd::std_specs::cmp::PartialEqSpecImpl for Binary32 {
    open spec fn obeys_eq_spec() -> bool {
        true
    }

    open spec fn eq_spec(&self, other: &Self) -> bool {
        !self.is_nan() && !other.is_nan() && (self.bits == other.bits || (self.pattern() == 0 && other.pattern() == 0))
    }
}

impl PartialEq for Binary64 {
    /// Whether the two numbers compare equal: the two zeros do, and NaN equals nothing.
    fn eq(&self, other: &Self) -> (equal: bool) {
        let mine = self.bits % 0x8000_0000_0000_0000;
        let others = other.bits % 0x8000_0000_0000_0000;
        !self.is_nan() && !other.is_nan() && (self.bits == other.bits || (mine == 0 && others == 0))
    }
}

impl vstd::std_specs::cmp::PartialEqSpecImpl for Binary64 {
    open spec fn obeys_eq_spec() -> bool {
        true
    }

    open spec fn eq_spec(&self, other: &Self) -> bool {
        !self.is_nan() && !other.is_nan() && (self.bits == other.bits || (self.pattern() == 0 && other.pattern() == 0))
    }
}

/// The pattern that the quotient of `a * 2^xa` and `b * 2^xb` is rounded to, in units of
/// `2^-unit`.
fn divide_parts(a: u128, xa: u64, b: u128, xb: u64, unit: u64, k: u64, top: u64) -> (pattern: u64)
    requires
        0 < a < 0x20_0000_0000_0000,
        0 < b < 0x20_0000_0000_0000,
        xa <= 2047,
        xb <= 2047,
        unit <= 2047,
        0 < k <= 52,
        top <= 2047,
    ensures
        pattern == crate::rounding::rounded(
            (a * crate::rounding::power(xa as nat) * crate::rounding::power(unit as nat)) as nat,
            (b * crate::rounding::power(xb as nat)) as nat,
            k as nat,
            top as nat * crate::rounding::power(k as nat),
        ),
        pattern <= top as nat * crate::rounding::power(k as nat),
{
    let length = bit_length(a);
    let shift: u64 = 127 - length;
    let factor = power_of_two(shift);
    proof {
        lemma_full_width(a as nat, length as nat, shift as nat);
    }
    let num: u128 = a * factor;
    let q: u128 = num / b;
    let inexact = num % b != 0;
    let e: i64 = unit as i64 + xa as i64 - xb as i64 - shift as i64;
    proof {
        lemma_quotient_is_wide(num as nat, b as nat, k as nat);
    }
    let pattern = round_parts(q, inexact, e, k, top, Ghost(num as nat), Ghost(b as nat));
    proof {
        let pa = crate::rounding::power(xa as nat) as int;
        let pb = crate::rounding::power(xb as nat) as int;
        let pu = crate::rounding::power(unit as nat) as int;
        let ps = crate::rounding::power(shift as nat) as int;
        vstd::arithmetic::power2::lemma_pow2_pos(xb as nat);
        vstd::arithmetic::power2::lemma_pow2_adds(xa as nat, unit as nat);
        assert(b * pb > 0) by (nonlinear_arith)
            requires
                b > 0,
                pb > 0,
        ;
        if e >= 0 {
            let pe = crate::rounding::power(e as nat) as int;
            vstd::arithmetic::power2::lemma_pow2_adds(shift as nat, e as nat);
            vstd::arithmetic::power2::lemma_pow2_adds((shift + e) as nat, xb as nat);
            assert(((a * ps) * pe) * (b * pb) == ((a * pa) * pu) * b) by (nonlinear_arith)
                requires
                    (ps * pe) * pb == pa * pu,
            ;
        } else {
            let pe = crate::rounding::power((-e) as nat) as int;
            vstd::arithmetic::power2::lemma_pow2_adds(shift as nat, xb as nat);
            vstd::arithmetic::power2::lemma_pow2_adds((xa + unit) as nat, (-e) as nat);
            vstd::arithmetic::power2::lemma_pow2_pos((-e) as nat);
            assert((a * ps) * (b * pb) == ((a * pa) * pu) * (b * pe)) by (nonlinear_arith)
                requires
                    ps * pb == (pa * pu) * pe,
            ;
            assert(b * pe > 0) by (nonlinear_arith)
                requires
                    b > 0,
                    pe > 0,
            ;
        }
        crate::rounding::equal_fractions_round_alike(
            crate::rounding::scaled_num(num as nat, e as int),
            crate::rounding::scaled_den(b as nat, e as int),
            (a * pa * pu) as nat,
            (b * pb) as nat,
            k as nat,
            top as nat * crate::rounding::power(k as nat),
        );
    }
    pattern
}

/// The pattern that the product of `a * 2^xa` and `b * 2^xb` is rounded to, in units of
/// `2^-unit`.
fn multiply_parts(a: u128, xa: u64, b: u128, xb: u64, unit: u64, k: u64, top: u64) -> (pattern: u64)
    requires
        0 < a < 0x20_0000_0000_0000,
        0 < b < 0x20_0000_0000_0000,
        xa <= 2047,
        xb <= 2047,
        unit <= 2047,
        0 < k <= 52,
        top <= 2047,
    ensures
        pattern == crate::rounding::rounded(
            ((a * crate::rounding::power(xa as nat)) * (b * crate::rounding::power(xb as nat))) as nat,
            crate::rounding::power(unit as nat),
            k as nat,
            top as nat * crate::rounding::power(k as nat),
        ),
        pattern <= top as nat * crate::rounding::power(k as nat),
{
    proof {
        assert(0 < a * b < 0x400_0000_0000_0000_0000_0000_0000) by (nonlinear_arith)
            requires
                0 < a < 0x20_0000_0000_0000,
                0 < b < 0x20_0000_0000_0000,
        ;
    }
    let num: u128 = a * b;
    let e: i64 = xa as i64 + xb as i64 - unit as i64;
    let pattern = round_parts(num, false, e, k, top, Ghost(num as nat), Ghost(1));
    proof {
        let pa = crate::rounding::power(xa as nat) as int;
        let pb = crate::rounding::power(xb as nat) as int;
        let pu = crate::rounding::power(unit as nat) as int;
        vstd::arithmetic::power2::lemma_pow2_pos(unit as nat);
        vstd::arithmetic::power2::lemma_pow2_adds(xa as nat, xb as nat);
        assert((a * pa) * (b * pb) == (a * b) * (pa * pb)) by (nonlinear_arith);
        if e >= 0 {
            let pe = crate::rounding::power(e as nat) as int;
            vstd::arithmetic::power2::lemma_pow2_adds(e as nat, unit as nat);
            assert((num * pe) * pu == num * (pa * pb)) by (nonlinear_arith)
                requires
                    pe * pu == pa * pb,
            ;
        } else {
            let pe = crate::rounding::power((-e) as nat) as int;
            vstd::arithmetic::power2::lemma_pow2_adds((xa + xb) as nat, (-e) as nat);
            vstd::arithmetic::power2::lemma_pow2_pos((-e) as nat);
            assert(num * pu == (num * (pa * pb)) * (1 * pe)) by (nonlinear_arith)
                requires
                    pu == (pa * pb) * pe,
            ;
        }
        crate::rounding::equal_fractions_round_alike(
            crate::rounding::scaled_num(num as nat, e as int),
            crate::rounding::scaled_den(1, e as int),
            ((a * pa) * (b * pb)) as nat,
            pu as nat,
            k as nat,
            top as nat * crate::rounding::power(k as nat),
        );
    }
    pattern
}

/// A number shifted to 127 bits.
proof fn lemma_full_width(a: nat, length: nat, shift: nat)
    requires
        0 < length <= 127,
        shift == 127 - length,
        crate::rounding::power((length - 1) as nat) <= a < crate::rounding::power(length),
    ensures
        0x4000_0000_0000_0000_0000_0000_0000_0000 <= a * crate::rounding::power(shift)
            < 0x8000_0000_0000_0000_0000_0000_0000_0000,
{
    crate::rounding::lemma_power_127();
    vstd::arithmetic::power2::lemma_pow2_adds(length, shift);
    vstd::arithmetic::power2::lemma_pow2_adds((length - 1) as nat, shift);
    vstd::arithmetic::power2::lemma_pow2_unfold(127);
    vstd::arithmetic::power2::lemma_pow2_pos(shift);
    let f = crate::rounding::power(shift) as int;
    let low = crate::rounding::power((length - 1) as nat) as int;
    let high = crate::rounding::power(length) as int;
    assert(low * f <= a * f && a * f < high * f) by (nonlinear_arith)
        requires
            low <= a < high,
            f > 0,
    ;
}

/// A number of 127 bits divided by one of 53 bits has enough bits to round.
proof fn lemma_quotient_is_wide(num: nat, b: nat, k: nat)
    requires
        0x4000_0000_0000_0000_0000_0000_0000_0000 <= num,
        0 < b < 0x20_0000_0000_0000,
        k <= 52,
    ensures
        num / b >= crate::rounding::power(k + 2),
        num / b <= num,
        num / b > 0,
{
    vstd::arithmetic::power2::lemma2_to64_rest();
    crate::rounding::lemma_power_grows(k + 2, 54);
    vstd::arithmetic::div_mod::lemma_div_is_ordered_by_denominator(num as int, b as int, 0x20_0000_0000_0000);
    vstd::arithmetic::div_mod::lemma_div_is_ordered(
        0x4000_0000_0000_0000_0000_0000_0000_0000,
        num as int,
        0x20_0000_0000_0000,
    );
    vstd::arithmetic::div_mod::lemma_div_nonincreasing(num as int, b as int);
}

impl Binary32 {
    /// Whether the sign bit is set.
    pub open spec fn is_negative(self) -> bool {
        self.bits >= 0x8000_0000
    }

    /// The pattern without the sign bit.
    pub open spec fn pattern(self) -> nat {
        (self.bits % 0x8000_0000) as nat
    }

    /// The number with a sign and a pattern.
    pub open spec fn with_sign(negative: bool, pattern: nat) -> Self {
        Binary32 {
            bits: if negative {
                (0x8000_0000 + pattern) as u32
            } else {
                pattern as u32
            },
        }
    }

    /// Whether the number is neither an infinity nor NaN.
    pub open spec fn spec_is_finite(self) -> bool {
        self.pattern() < INFINITY_32
    }

    /// Whether the number is NaN.
    pub open spec fn spec_is_nan(self) -> bool {
        self.pattern() > INFINITY_32
    }

    /// Whether the number is an infinity.
    pub open spec fn is_infinite(self) -> bool {
        self.pattern() == INFINITY_32
    }

    /// The quiet NaN that stands for every undefined result.
    pub open spec fn undefined() -> Self {
        Binary32 { bits: 0x7FC0_0000 }
    }

    /// The size of a finite number, in units of 2 to the power of -149.
    pub open spec fn size(self) -> nat {
        crate::rounding::magnitude(self.pattern(), 23)
    }

    /// The value of a finite number, in units of 2 to the power of -149.
    pub open spec fn units(self) -> int {
        if self.is_negative() {
            -self.size()
        } else {
            self.size() as int
        }
    }

    /// Whether the number is finite and above zero.
    pub open spec fn spec_is_positive(self) -> bool {
        self.spec_is_finite() && self.units() > 0
    }

    /// The pattern that `num / den` units are rounded to; from the infinity on it is that.
    pub open spec fn rounded(num: nat, den: nat) -> nat {
        crate::rounding::rounded(num, den, 23, INFINITY_32 as nat)
    }

    /// The number nearest to an integer.
    pub open spec fn of_integer(value: int) -> Self {
        Self::with_sign(
            value < 0,
            Self::rounded(
                (if value < 0 {
                    -value
                } else {
                    value
                }) as nat * crate::rounding::power(149),
                1,
            ),
        )
    }

    /// The quotient of two numbers.
    pub open spec fn quotient(self, other: Self) -> Self {
        let negative = self.is_negative() != other.is_negative();
        if self.is_nan() || other.is_nan() || (self.is_infinite() && other.is_infinite()) || (self.pattern() == 0
            && other.pattern() == 0) {
            Self::undefined()
        } else if self.is_infinite() || other.pattern() == 0 {
            Self::with_sign(negative, INFINITY_32 as nat)
        } else if other.is_infinite() {
            Self::with_sign(negative, 0)
        } else {
            Self::with_sign(negative, Self::rounded(self.size() * crate::rounding::power(149), other.size()))
        }
    }

    /// The product of two numbers.
    pub open spec fn product(self, other: Self) -> Self {
        let negative = self.is_negative() != other.is_negative();
        if self.is_nan() || other.is_nan() || (self.is_infinite() && other.pattern() == 0) || (self.pattern() == 0
            && other.is_infinite()) {
            Self::undefined()
        } else if self.is_infinite() || other.is_infinite() {
            Self::with_sign(negative, INFINITY_32 as nat)
        } else {
            Self::with_sign(negative, Self::rounded(self.size() * other.size(), crate::rounding::power(149)))
        }
    }

    /// The sum of two numbers. A sum of nothing is positive, unless both are negative.
    pub open spec fn sum(self, other: Self) -> Self {
        let exact = self.units() + other.units();
        if self.is_nan() || other.is_nan() || (self.is_infinite() && other.is_infinite() && self.is_negative()
            != other.is_negative()) {
            Self::undefined()
        } else if self.is_infinite() {
            self
        } else if other.is_infinite() {
            other
        } else if exact == 0 {
            Self::with_sign(self.is_negative() && other.is_negative(), 0)
        } else {
            Self::with_sign(
                exact < 0,
                Self::rounded(
                    (if exact < 0 {
                        -exact
                    } else {
                        exact
                    }) as nat,
                    1,
                ),
            )
        }
    }

    /// The number with the other sign.
    pub open spec fn opposite(self) -> Self {
        Self::with_sign(!self.is_negative(), self.pattern())
    }

    /// The same number in binary64.
    pub open spec fn widened(self) -> Binary64 {
        if self.is_nan() {
            Binary64::undefined()
        } else if self.is_infinite() {
            Binary64::with_sign(self.is_negative(), INFINITY_64 as nat)
        } else {
            Binary64::with_sign(self.is_negative(), Binary64::rounded(self.size() * crate::rounding::power(925), 1))
        }
    }

    /// The number with the bit pattern `bits`.
    pub fn from_bits(bits: u32) -> (number: Self)
        ensures
            number.bits == bits,
    {
        Binary32 { bits }
    }

    /// The bit pattern of the number.
    pub fn to_bits(self) -> (bits: u32)
        ensures
            bits == self.bits,
    {
        self.bits
    }

    /// Whether the number is neither an infinity nor NaN.
    #[verifier::when_used_as_spec(spec_is_finite)]
    pub fn is_finite(self) -> (finite: bool)
        ensures
            finite == self.spec_is_finite(),
    {
        self.bits % 0x8000_0000 < INFINITY_32
    }

    /// Whether the number is NaN.
    #[verifier::when_used_as_spec(spec_is_nan)]
    pub fn is_nan(self) -> (nan: bool)
        ensures
            nan == self.spec_is_nan(),
    {
        self.bits % 0x8000_0000 > INFINITY_32
    }

    /// Whether the number is finite and above zero.
    #[verifier::when_used_as_spec(spec_is_positive)]
    pub fn is_positive(self) -> (positive: bool)
        ensures
            positive == self.spec_is_positive(),
    {
        proof {
            crate::rounding::zero_has_no_magnitude(self.pattern(), 23);
        }
        0 < self.bits && self.bits < INFINITY_32
    }

    /// The significand and the exponent of the size of a finite number.
    fn parts(self) -> (parts: (u128, u64))
        requires
            self.is_finite(),
        ensures
            self.size() == parts.0 * crate::rounding::power(parts.1 as nat),
            parts.0 < 0x100_0000,
            parts.1 < 254,
            parts.1 > 0 ==> parts.0 >= 0x80_0000,
            parts.0 == 0 <==> self.pattern() == 0,
    {
        let pattern: u32 = self.bits % 0x8000_0000;
        let exponent: u32 = pattern / 0x80_0000;
        let fraction: u32 = pattern % 0x80_0000;
        proof {
            vstd::arithmetic::power2::lemma2_to64();
            assert(crate::rounding::power(23) == 0x80_0000);
            assert(fraction * crate::rounding::power(0) == fraction) by (nonlinear_arith)
                requires
                    crate::rounding::power(0) == 1,
            ;
        }
        if exponent == 0 {
            (fraction as u128, 0)
        } else {
            (0x80_0000 + fraction as u128, exponent as u64 - 1)
        }
    }

    /// Joins a sign and a pattern.
    fn join(negative: bool, pattern: u64) -> (number: Self)
        requires
            pattern <= INFINITY_32,
        ensures
            number == Self::with_sign(negative, pattern as nat),
            number.is_negative() == negative,
            number.pattern() == pattern,
    {
        if negative {
            Binary32 { bits: 0x8000_0000 + pattern as u32 }
        } else {
            Binary32 { bits: pattern as u32 }
        }
    }

    /// The number nearest to an integer.
    pub fn from_integer(value: i32) -> (number: Self)
        ensures
            number == Self::of_integer(value as int),
            number.is_finite(),
    {
        proof {
            vstd::arithmetic::power2::lemma2_to64();
            lemma_formats();
            lemma_integer_is_finite(
                if value < 0 {
                    -(value as int)
                } else {
                    value as int
                },
                31,
                149,
                23,
                255,
            );
        }
        if value == 0 {
            proof {
                crate::rounding::nothing_rounds_to_zero(1, 23, INFINITY_32 as nat);
                assert(0 * crate::rounding::power(149) == 0);
            }
            return Binary32 { bits: 0 };
        }
        let wide: i128 = value as i128;
        let size: u128 = if wide < 0 { (0 - wide) as u128 } else { wide as u128 };
        let pattern = round_parts(size, false, 149, 23, 255, Ghost(size as nat), Ghost(1));
        Self::join(value < 0, pattern)
    }

    /// The quotient of two numbers.
    pub fn divide(self, other: Self) -> (number: Self)
        ensures
            number == self.quotient(other),
    {
        let negative = (self.bits >= 0x8000_0000) != (other.bits >= 0x8000_0000);
        let mine = self.bits % 0x8000_0000;
        let others = other.bits % 0x8000_0000;
        if mine > INFINITY_32 || others > INFINITY_32 || (mine == INFINITY_32 && others == INFINITY_32) || (mine == 0 && others
            == 0) {
            return Binary32 { bits: 0x7FC0_0000 };
        }
        if mine == INFINITY_32 || others == 0 {
            return Self::join(negative, INFINITY_32 as u64);
        }
        if others == INFINITY_32 {
            return Self::join(negative, 0);
        }
        let (a, xa) = self.parts();
        let (b, xb) = other.parts();
        proof {
            lemma_formats();
            crate::rounding::zero_has_no_magnitude(other.pattern(), 23);
            crate::rounding::zero_has_no_magnitude(self.pattern(), 23);
        }
        if a == 0 {
            proof {
                crate::rounding::nothing_rounds_to_zero(other.size(), 23, INFINITY_32 as nat);
                assert(0 * crate::rounding::power(149) == 0);
            }
            return Self::join(negative, 0);
        }
        let pattern = divide_parts(a, xa, b, xb, 149, 23, 255);
        Self::join(negative, pattern)
    }

    /// The product of two numbers.
    pub fn multiply(self, other: Self) -> (number: Self)
        ensures
            number == self.product(other),
    {
        let negative = (self.bits >= 0x8000_0000) != (other.bits >= 0x8000_0000);
        let mine = self.bits % 0x8000_0000;
        let others = other.bits % 0x8000_0000;
        if mine > INFINITY_32 || others > INFINITY_32 || (mine == INFINITY_32 && others == 0) || (mine == 0 && others
            == INFINITY_32) {
            return Binary32 { bits: 0x7FC0_0000 };
        }
        if mine == INFINITY_32 || others == INFINITY_32 {
            return Self::join(negative, INFINITY_32 as u64);
        }
        let (a, xa) = self.parts();
        let (b, xb) = other.parts();
        proof {
            lemma_formats();
            crate::rounding::zero_has_no_magnitude(other.pattern(), 23);
            crate::rounding::zero_has_no_magnitude(self.pattern(), 23);
        }
        if a == 0 || b == 0 {
            proof {
                vstd::arithmetic::power2::lemma_pow2_pos(149);
                crate::rounding::nothing_rounds_to_zero(crate::rounding::power(149), 23, INFINITY_32 as nat);
                assert(self.size() * other.size() == 0) by (nonlinear_arith)
                    requires
                        self.size() == 0 || other.size() == 0,
                ;
            }
            return Self::join(negative, 0);
        }
        let pattern = multiply_parts(a, xa, b, xb, 149, 23, 255);
        Self::join(negative, pattern)
    }

    /// The number with the other sign.
    pub fn negate(self) -> (number: Self)
        ensures
            number == self.opposite(),
    {
        if self.bits >= 0x8000_0000 {
            Binary32 { bits: self.bits - 0x8000_0000 }
        } else {
            Binary32 { bits: self.bits + 0x8000_0000 }
        }
    }

    /// The same number in binary64.
    pub fn widen(self) -> (number: Binary64)
        ensures
            number == self.widened(),
    {
        let negative = self.bits >= 0x8000_0000;
        if self.is_nan() {
            return Binary64 { bits: 0x7FF8_0000_0000_0000 };
        }
        if self.bits % 0x8000_0000 == INFINITY_32 {
            return Binary64::join(negative, INFINITY_64);
        }
        let (a, xa) = self.parts();
        proof {
            lemma_formats();
            crate::rounding::zero_has_no_magnitude(self.pattern(), 23);
        }
        if a == 0 {
            proof {
                crate::rounding::nothing_rounds_to_zero(1, 52, INFINITY_64 as nat);
                assert(0 * crate::rounding::power(925) == 0);
            }
            return Binary64::join(negative, 0);
        }
        let e: i64 = xa as i64 + 925;
        let pattern = round_parts(a, false, e, 52, 2047, Ghost(a as nat), Ghost(1));
        proof {
            vstd::arithmetic::power2::lemma_pow2_adds(xa as nat, 925);
            let px = crate::rounding::power(xa as nat) as int;
            let pu = crate::rounding::power(925) as int;
            assert(a * (px * pu) == (a * px) * pu) by (nonlinear_arith);
        }
        Binary64::join(negative, pattern)
    }

    /// The sum of two numbers.
    pub fn plus(self, other: Self) -> (number: Self)
        ensures
            number == self.sum(other),
    {
        let mine = self.bits % 0x8000_0000;
        let others = other.bits % 0x8000_0000;
        let apart = (self.bits >= 0x8000_0000) != (other.bits >= 0x8000_0000);
        if mine > INFINITY_32 || others > INFINITY_32 || (mine == INFINITY_32 && others == INFINITY_32 && apart) {
            return Binary32 { bits: 0x7FC0_0000 };
        }
        if mine == INFINITY_32 {
            return self;
        }
        if others == INFINITY_32 {
            return other;
        }
        let (a, xa) = self.parts();
        let (b, xb) = other.parts();
        if xa >= xb {
            sum_of_parts(self, a, xa, other, b, xb)
        } else {
            sum_of_parts(other, b, xb, self, a, xa)
        }
    }
}

/// An integer of at most `2^bits` is rounded to a finite pattern.
proof fn lemma_integer_is_finite(size: int, bits: nat, unit: nat, k: nat, top: nat)
    requires
        k > 0,
        0 <= size <= crate::rounding::power(bits),
        bits + unit + 1 < top,
    ensures
        crate::rounding::rounded(
            (size * crate::rounding::power(unit)) as nat,
            1,
            k,
            top * crate::rounding::power(k),
        ) < top * crate::rounding::power(k),
{
    let pu = crate::rounding::power(unit) as int;
    let pb = crate::rounding::power(bits) as int;
    vstd::arithmetic::power2::lemma_pow2_adds(bits, unit);
    vstd::arithmetic::power2::lemma2_to64();
    crate::rounding::lemma_power_grows(1, k + 1);
    crate::rounding::few_bits_are_exact(1, bits + unit, k, top);
    assert(size * pu <= pb * pu) by (nonlinear_arith)
        requires
            size <= pb,
            pu >= 0,
    ;
    assert(0 <= size * pu) by (nonlinear_arith)
        requires
            0 <= size,
            pu >= 0,
    ;
    crate::rounding::rounding_is_monotonic(
        (size * pu) as nat,
        (1 * crate::rounding::power(bits + unit)) as nat,
        1,
        k,
        top * crate::rounding::power(k),
    );
}

/// The limits of the two formats, as exponents above `k` fraction bits.
proof fn lemma_formats()
    ensures
        255 * crate::rounding::power(23) == INFINITY_32,
        2047 * crate::rounding::power(52) == INFINITY_64,
{
    vstd::arithmetic::power2::lemma2_to64();
    vstd::arithmetic::power2::lemma2_to64_rest();
}

/// The sum of two numbers, the first of which has the larger exponent.
fn sum_of_parts(large: Binary32, a: u128, xa: u64, small: Binary32, b: u128, xb: u64) -> (number: Binary32)
    requires
        large.is_finite(),
        small.is_finite(),
        large.size() == a * crate::rounding::power(xa as nat),
        small.size() == b * crate::rounding::power(xb as nat),
        a < 0x100_0000,
        b < 0x100_0000,
        xb <= xa < 254,
        xa > 0 ==> a >= 0x80_0000,
    ensures
        number == large.sum(small),
{
    let large_negative = large.bits >= 0x8000_0000;
    let small_negative = small.bits >= 0x8000_0000;
    let gap: u64 = xa - xb;
    let ghost pb = crate::rounding::power(xb as nat) as int;
    let ghost pg = crate::rounding::power(gap as nat) as int;
    proof {
        lemma_formats();
        vstd::arithmetic::power2::lemma_pow2_adds(gap as nat, xb as nat);
        vstd::arithmetic::power2::lemma_pow2_pos(xb as nat);
        vstd::arithmetic::power2::lemma_pow2_pos(gap as nat);
        assert(a * (pg * pb) == (a * pg) * pb) by (nonlinear_arith);
        assert((a * pg + b) * pb == (a * pg) * pb + b * pb) by (nonlinear_arith);
        assert((a * pg - b) * pb == (a * pg) * pb - b * pb) by (nonlinear_arith);
        assert((b - a * pg) * pb == b * pb - (a * pg) * pb) by (nonlinear_arith);
    }
    if gap <= 100 {
        let factor = power_of_two(gap);
        proof {
            crate::rounding::lemma_power_127();
            vstd::arithmetic::power2::lemma2_to64();
            crate::rounding::lemma_power_grows(gap as nat, 100);
            vstd::arithmetic::power2::lemma_pow2_adds(100, 27);
            assert(a * pg <= 0x100_0000 * pg) by (nonlinear_arith)
                requires
                    a <= 0x100_0000,
                    pg >= 0,
            ;
        }
        let scaled: u128 = a * factor;
        let (size, negative): (u128, bool) = if large_negative == small_negative {
            (scaled + b, large_negative)
        } else if scaled >= b {
            (scaled - b, large_negative)
        } else {
            (b - scaled, small_negative)
        };
        proof {
            assert(size * pb == 0 <==> size == 0) by (nonlinear_arith)
                requires
                    pb > 0,
            ;
        }
        if size == 0 {
            return Binary32::join(large_negative && small_negative, 0);
        }
        proof {
            assert(size * pb > 0) by (nonlinear_arith)
                requires
                    size > 0,
                    pb > 0,
            ;
        }
        let pattern = round_parts(size, false, xb as i64, 23, 255, Ghost(size as nat), Ghost(1));
        return Binary32::join(negative, pattern);
    }
    // The smaller number lies below every bit that is kept of the larger one.
    let factor = power_of_two(70);
    let rest: u64 = gap - 70;
    let ghost pr = crate::rounding::power(rest as nat) as int;
    proof {
        vstd::arithmetic::power2::lemma2_to64();
        vstd::arithmetic::power2::lemma_pow2_adds(64, 6);
        vstd::arithmetic::power2::lemma_pow2_adds(70, rest as nat);
        crate::rounding::lemma_power_grows(31, rest as nat);
        crate::rounding::lemma_power_grows(25, 64);
    }
    let scaled: u128 = a * factor;
    let ghost f = factor as int;
    let ghost big = a * pg;
    proof {
        assert(big == scaled * pr) by (nonlinear_arith)
            requires
                big == a * pg,
                pg == f * pr,
                scaled == a * f,
        ;
    }
    let e: i64 = xa as i64 - 70;
    let inexact = b != 0;
    let same = large_negative == small_negative;
    let q: u128 = if same || !inexact { scaled } else { scaled - 1 };
    let ghost num = if same {
        big + b
    } else {
        big - b
    };
    proof {
        if same || !inexact {
            assert(num == scaled * pr + b);
            vstd::arithmetic::div_mod::lemma_fundamental_div_mod_converse(num, pr, scaled as int, b as int);
        } else {
            assert(num == (scaled - 1) * pr + (pr - b)) by (nonlinear_arith)
                requires
                    num == scaled * pr - b,
            ;
            vstd::arithmetic::div_mod::lemma_fundamental_div_mod_converse(num, pr, scaled - 1, pr - b);
        }
        assert(num > 0) by (nonlinear_arith)
            requires
                num >= scaled * pr - b,
                scaled >= 1,
                pr > b,
        ;
        assert(num * pb > 0) by (nonlinear_arith)
            requires
                num > 0,
                pb > 0,
        ;
    }
    let pattern = round_parts(q, inexact, e, 23, 255, Ghost(num as nat), Ghost(pr as nat));
    proof {
        let pe = crate::rounding::power(e as nat) as int;
        vstd::arithmetic::power2::lemma_pow2_adds(xb as nat, rest as nat);
        assert((num * pe) * 1 == (num * pb) * pr) by (nonlinear_arith)
            requires
                pe == pb * pr,
        ;
        crate::rounding::equal_fractions_round_alike(
            (num * pe) as nat,
            pr as nat,
            (num * pb) as nat,
            1,
            23,
            INFINITY_32 as nat,
        );
    }
    Binary32::join(large_negative, pattern)
}

impl Binary64 {
    /// Whether the sign bit is set.
    pub open spec fn is_negative(self) -> bool {
        self.bits >= 0x8000_0000_0000_0000
    }

    /// The pattern without the sign bit.
    pub open spec fn pattern(self) -> nat {
        (self.bits % 0x8000_0000_0000_0000) as nat
    }

    /// The number with a sign and a pattern.
    pub open spec fn with_sign(negative: bool, pattern: nat) -> Self {
        Binary64 {
            bits: if negative {
                (0x8000_0000_0000_0000 + pattern) as u64
            } else {
                pattern as u64
            },
        }
    }

    /// Whether the number is neither an infinity nor NaN.
    pub open spec fn spec_is_finite(self) -> bool {
        self.pattern() < INFINITY_64
    }

    /// Whether the number is NaN.
    pub open spec fn spec_is_nan(self) -> bool {
        self.pattern() > INFINITY_64
    }

    /// Whether the number is an infinity.
    pub open spec fn is_infinite(self) -> bool {
        self.pattern() == INFINITY_64
    }

    /// The quiet NaN that stands for every undefined result.
    pub open spec fn undefined() -> Self {
        Binary64 { bits: 0x7FF8_0000_0000_0000 }
    }

    /// The size of a finite number, in units of 2 to the power of -1074.
    pub open spec fn size(self) -> nat {
        crate::rounding::magnitude(self.pattern(), 52)
    }

    /// The value of a finite number, in units of 2 to the power of -1074.
    pub open spec fn units(self) -> int {
        if self.is_negative() {
            -self.size()
        } else {
            self.size() as int
        }
    }

    /// Whether the number is finite and above zero.
    pub open spec fn spec_is_positive(self) -> bool {
        self.spec_is_finite() && self.units() > 0
    }

    /// The pattern that `num / den` units are rounded to; from the infinity on it is that.
    pub open spec fn rounded(num: nat, den: nat) -> nat {
        crate::rounding::rounded(num, den, 52, INFINITY_64 as nat)
    }

    /// The number nearest to an integer.
    pub open spec fn of_integer(value: int) -> Self {
        Self::with_sign(
            value < 0,
            Self::rounded(
                (if value < 0 {
                    -value
                } else {
                    value
                }) as nat * crate::rounding::power(1074),
                1,
            ),
        )
    }

    /// The quotient of two numbers.
    pub open spec fn quotient(self, other: Self) -> Self {
        let negative = self.is_negative() != other.is_negative();
        if self.is_nan() || other.is_nan() || (self.is_infinite() && other.is_infinite()) || (self.pattern() == 0
            && other.pattern() == 0) {
            Self::undefined()
        } else if self.is_infinite() || other.pattern() == 0 {
            Self::with_sign(negative, INFINITY_64 as nat)
        } else if other.is_infinite() {
            Self::with_sign(negative, 0)
        } else {
            Self::with_sign(negative, Self::rounded(self.size() * crate::rounding::power(1074), other.size()))
        }
    }

    /// The product of two numbers.
    pub open spec fn product(self, other: Self) -> Self {
        let negative = self.is_negative() != other.is_negative();
        if self.is_nan() || other.is_nan() || (self.is_infinite() && other.pattern() == 0) || (self.pattern() == 0
            && other.is_infinite()) {
            Self::undefined()
        } else if self.is_infinite() || other.is_infinite() {
            Self::with_sign(negative, INFINITY_64 as nat)
        } else {
            Self::with_sign(negative, Self::rounded(self.size() * other.size(), crate::rounding::power(1074)))
        }
    }

    /// The integer nearest to a finite number; halfway between two it is the one away from
    /// zero.
    pub open spec fn nearest(self) -> int {
        let one = crate::rounding::power(1074);
        let rounded = (2 * self.size() + one) / (2 * one);
        if self.is_negative() {
            -rounded
        } else {
            rounded as int
        }
    }

    /// The number with the bit pattern `bits`.
    pub fn from_bits(bits: u64) -> (number: Self)
        ensures
            number.bits == bits,
    {
        Binary64 { bits }
    }

    /// The bit pattern of the number.
    pub fn to_bits(self) -> (bits: u64)
        ensures
            bits == self.bits,
    {
        self.bits
    }

    /// Whether the number is neither an infinity nor NaN.
    #[verifier::when_used_as_spec(spec_is_finite)]
    pub fn is_finite(self) -> (finite: bool)
        ensures
            finite == self.spec_is_finite(),
    {
        self.bits % 0x8000_0000_0000_0000 < INFINITY_64
    }

    /// Whether the number is NaN.
    #[verifier::when_used_as_spec(spec_is_nan)]
    pub fn is_nan(self) -> (nan: bool)
        ensures
            nan == self.spec_is_nan(),
    {
        self.bits % 0x8000_0000_0000_0000 > INFINITY_64
    }

    /// Whether the number is finite and above zero.
    #[verifier::when_used_as_spec(spec_is_positive)]
    pub fn is_positive(self) -> (positive: bool)
        ensures
            positive == self.spec_is_positive(),
    {
        proof {
            crate::rounding::zero_has_no_magnitude(self.pattern(), 52);
        }
        0 < self.bits && self.bits < INFINITY_64
    }

    /// Whether the number is below zero, if it is finite. A negative zero is not.
    pub fn is_below_zero(self) -> (below: bool)
        ensures
            below == (self.units() < 0),
    {
        proof {
            crate::rounding::zero_has_no_magnitude(self.pattern(), 52);
        }
        self.bits > 0x8000_0000_0000_0000
    }

    /// Whether the number is above `other`. The two zeros are equal, and NaN is above nothing
    /// and below nothing.
    pub fn is_above(self, other: Self) -> (above: bool)
        ensures
            above == (!self.is_nan() && !other.is_nan() && self.units() > other.units()),
    {
        if self.is_nan() || other.is_nan() {
            return false;
        }
        let half: u64 = 0x8000_0000_0000_0000;
        let mine = self.bits % half;
        let others = other.bits % half;
        proof {
            crate::rounding::zero_has_no_magnitude(mine as nat, 52);
            crate::rounding::zero_has_no_magnitude(others as nat, 52);
            if mine < others {
                crate::rounding::magnitude_is_monotonic(mine as nat, others as nat, 52);
            }
            if others < mine {
                crate::rounding::magnitude_is_monotonic(others as nat, mine as nat, 52);
            }
        }
        if self.bits < half {
            if other.bits < half {
                mine > others
            } else {
                mine > 0 || others > 0
            }
        } else if other.bits < half {
            false
        } else {
            mine < others
        }
    }

    /// The significand and the exponent of the size of a finite number.
    fn parts(self) -> (parts: (u128, u64))
        requires
            self.is_finite(),
        ensures
            self.size() == parts.0 * crate::rounding::power(parts.1 as nat),
            parts.0 < 0x20_0000_0000_0000,
            parts.1 < 2046,
            parts.0 == 0 <==> self.pattern() == 0,
    {
        let pattern: u64 = self.bits % 0x8000_0000_0000_0000;
        let exponent: u64 = pattern / 0x10_0000_0000_0000;
        let fraction: u64 = pattern % 0x10_0000_0000_0000;
        proof {
            vstd::arithmetic::power2::lemma2_to64();
            vstd::arithmetic::power2::lemma2_to64_rest();
            assert(crate::rounding::power(52) == 0x10_0000_0000_0000);
            assert(fraction * crate::rounding::power(0) == fraction) by (nonlinear_arith)
                requires
                    crate::rounding::power(0) == 1,
            ;
        }
        if exponent == 0 {
            (fraction as u128, 0)
        } else {
            (0x10_0000_0000_0000 + fraction as u128, exponent - 1)
        }
    }

    /// Joins a sign and a pattern.
    fn join(negative: bool, pattern: u64) -> (number: Self)
        requires
            pattern <= INFINITY_64,
        ensures
            number == Self::with_sign(negative, pattern as nat),
            number.is_negative() == negative,
            number.pattern() == pattern,
    {
        if negative {
            Binary64 { bits: 0x8000_0000_0000_0000 + pattern }
        } else {
            Binary64 { bits: pattern }
        }
    }

    /// The number nearest to an integer.
    pub fn from_integer(value: i64) -> (number: Self)
        ensures
            number == Self::of_integer(value as int),
            number.is_finite(),
    {
        proof {
            vstd::arithmetic::power2::lemma2_to64_rest();
            lemma_formats();
            lemma_integer_is_finite(
                if value < 0 {
                    -(value as int)
                } else {
                    value as int
                },
                63,
                1074,
                52,
                2047,
            );
        }
        if value == 0 {
            proof {
                crate::rounding::nothing_rounds_to_zero(1, 52, INFINITY_64 as nat);
                assert(0 * crate::rounding::power(1074) == 0);
            }
            return Binary64 { bits: 0 };
        }
        let wide: i128 = value as i128;
        let size: u128 = if wide < 0 { (0 - wide) as u128 } else { wide as u128 };
        let pattern = round_parts(size, false, 1074, 52, 2047, Ghost(size as nat), Ghost(1));
        Self::join(value < 0, pattern)
    }

    /// The quotient of two numbers.
    pub fn divide(self, other: Self) -> (number: Self)
        ensures
            number == self.quotient(other),
    {
        let negative = (self.bits >= 0x8000_0000_0000_0000) != (other.bits >= 0x8000_0000_0000_0000);
        let mine = self.bits % 0x8000_0000_0000_0000;
        let others = other.bits % 0x8000_0000_0000_0000;
        if mine > INFINITY_64 || others > INFINITY_64 || (mine == INFINITY_64 && others == INFINITY_64) || (mine == 0 && others
            == 0) {
            return Binary64 { bits: 0x7FF8_0000_0000_0000 };
        }
        if mine == INFINITY_64 || others == 0 {
            return Self::join(negative, INFINITY_64 as u64);
        }
        if others == INFINITY_64 {
            return Self::join(negative, 0);
        }
        let (a, xa) = self.parts();
        let (b, xb) = other.parts();
        proof {
            lemma_formats();
            crate::rounding::zero_has_no_magnitude(other.pattern(), 52);
            crate::rounding::zero_has_no_magnitude(self.pattern(), 52);
        }
        if a == 0 {
            proof {
                crate::rounding::nothing_rounds_to_zero(other.size(), 52, INFINITY_64 as nat);
                assert(0 * crate::rounding::power(1074) == 0);
            }
            return Self::join(negative, 0);
        }
        let pattern = divide_parts(a, xa, b, xb, 1074, 52, 2047);
        Self::join(negative, pattern)
    }

    /// The product of two numbers.
    pub fn multiply(self, other: Self) -> (number: Self)
        ensures
            number == self.product(other),
    {
        let negative = (self.bits >= 0x8000_0000_0000_0000) != (other.bits >= 0x8000_0000_0000_0000);
        let mine = self.bits % 0x8000_0000_0000_0000;
        let others = other.bits % 0x8000_0000_0000_0000;
        if mine > INFINITY_64 || others > INFINITY_64 || (mine == INFINITY_64 && others == 0) || (mine == 0 && others
            == INFINITY_64) {
            return Binary64 { bits: 0x7FF8_0000_0000_0000 };
        }
        if mine == INFINITY_64 || others == INFINITY_64 {
            return Self::join(negative, INFINITY_64 as u64);
        }
        let (a, xa) = self.parts();
        let (b, xb) = other.parts();
        proof {
            lemma_formats();
            crate::rounding::zero_has_no_magnitude(other.pattern(), 52);
            crate::rounding::zero_has_no_magnitude(self.pattern(), 52);
        }
        if a == 0 || b == 0 {
            proof {
                vstd::arithmetic::power2::lemma_pow2_pos(1074);
                crate::rounding::nothing_rounds_to_zero(crate::rounding::power(1074), 52, INFINITY_64 as nat);
                assert(self.size() * other.size() == 0) by (nonlinear_arith)
                    requires
                        self.size() == 0 || other.size() == 0,
                ;
            }
            return Self::join(negative, 0);
        }
        let pattern = multiply_parts(a, xa, b, xb, 1074, 52, 2047);
        Self::join(negative, pattern)
    }

    /// The integer nearest to the number, where it is finite and below 2 to the power of 64
    /// in magnitude.
    pub fn nearest_integer(self) -> (integer: Option<i128>)
        ensures
            match integer {
                Some(value) => self.is_finite() && value == self.nearest() && -0x1_0000_0000_0000_0000 <= value
                    <= 0x1_0000_0000_0000_0000,
                None => self.is_finite() ==> self.nearest() >= 0x1_0000_0000_0000_0000 || self.nearest()
                    <= -0x1_0000_0000_0000_0000,
            },
    {
        let pattern: u64 = self.bits % 0x8000_0000_0000_0000;
        let exponent: u64 = pattern / 0x10_0000_0000_0000;
        let fraction: u64 = pattern % 0x10_0000_0000_0000;
        let size: u128 = if exponent == 0 {
            proof {
                lemma_nearest_below_half(pattern as nat);
            }
            0u128
        } else if exponent < 1075 {
            let significand: u128 = 0x10_0000_0000_0000 + fraction as u128;
            let shift: u64 = 1075 - exponent;
            proof {
                lemma_nearest_by_division(pattern as nat, exponent as nat, fraction as nat);
            }
            if shift > 54 {
                proof {
                    lemma_small_quotient(significand as nat, shift as nat);
                }
                0u128
            } else {
                let divisor = power_of_two(shift);
                proof {
                    vstd::arithmetic::power2::lemma2_to64_rest();
                    if shift < 54 {
                        vstd::arithmetic::power2::lemma_pow2_strictly_increases(shift as nat, 54);
                    }
                    vstd::arithmetic::div_mod::lemma_div_nonincreasing(
                        2 * significand + divisor,
                        2 * divisor,
                    );
                }
                (2 * significand + divisor) / (2 * divisor)
            }
        } else {
            proof {
                lemma_nearest_by_multiplication(pattern as nat, exponent as nat, fraction as nat);
            }
            if exponent > 1086 {
                return None;
            }
            let significand: u128 = 0x10_0000_0000_0000 + fraction as u128;
            let factor = power_of_two(exponent - 1075);
            proof {
                lemma_product_fits(significand as nat, (exponent - 1075) as nat);
            }
            significand * factor
        };
        proof {
            assert(size == nearest_to(self.pattern()));
        }
        if self.bits < 0x8000_0000_0000_0000 {
            Some(size as i128)
        } else {
            Some(-(size as i128))
        }
    }
}

/// The magnitude with the pattern `pattern`, rounded to an integer.
spec fn nearest_to(pattern: nat) -> nat {
    let one = crate::rounding::power(1074);
    (2 * crate::rounding::magnitude(pattern, 52) + one) / (2 * one)
}

proof fn lemma_nearest_below_half(pattern: nat)
    requires
        pattern < 0x10_0000_0000_0000,
    ensures
        nearest_to(pattern) == 0,
{
    vstd::arithmetic::power2::lemma2_to64_rest();
    vstd::arithmetic::power2::lemma_pow2_strictly_increases(53, 1074);
    let one = crate::rounding::power(1074) as int;
    vstd::arithmetic::div_mod::lemma_basic_div(2 * pattern + one, 2 * one);
}

proof fn lemma_nearest_by_division(pattern: nat, exponent: nat, fraction: nat)
    requires
        1 <= exponent < 1075,
        pattern == exponent * 0x10_0000_0000_0000 + fraction,
        fraction < 0x10_0000_0000_0000,
    ensures
        ({
            let divisor = crate::rounding::power((1075 - exponent) as nat);
            nearest_to(pattern) == (2 * (0x10_0000_0000_0000 + fraction) + divisor) as int / (2 * divisor) as int
        }),
{
    vstd::arithmetic::power2::lemma2_to64_rest();
    let significand = 0x10_0000_0000_0000 + fraction as int;
    let step = crate::rounding::power((exponent - 1) as nat) as int;
    let divisor = crate::rounding::power((1075 - exponent) as nat) as int;
    let one = crate::rounding::power(1074) as int;
    vstd::arithmetic::power2::lemma_pow2_adds((exponent - 1) as nat, (1075 - exponent) as nat);
    vstd::arithmetic::power2::lemma_pow2_pos((exponent - 1) as nat);
    vstd::arithmetic::power2::lemma_pow2_pos((1075 - exponent) as nat);
    assert(crate::rounding::magnitude(pattern, 52) == significand * step);
    assert(2 * (significand * step) + one == step * (2 * significand + divisor)) by (nonlinear_arith)
        requires
            one == step * divisor,
    ;
    assert(2 * one == step * (2 * divisor)) by (nonlinear_arith)
        requires
            one == step * divisor,
    ;
    vstd::arithmetic::div_mod::lemma_div_multiples_vanish_quotient(step, 2 * significand + divisor, 2 * divisor);
}

proof fn lemma_small_quotient(significand: nat, shift: nat)
    requires
        significand < 0x20_0000_0000_0000,
        shift > 54,
    ensures
        ({
            let divisor = crate::rounding::power(shift);
            (2 * significand + divisor) as int / (2 * divisor) as int == 0
        }),
{
    vstd::arithmetic::power2::lemma2_to64_rest();
    vstd::arithmetic::power2::lemma_pow2_strictly_increases(54, shift);
    let divisor = crate::rounding::power(shift) as int;
    vstd::arithmetic::div_mod::lemma_basic_div(2 * significand + divisor, 2 * divisor);
}

proof fn lemma_nearest_by_multiplication(pattern: nat, exponent: nat, fraction: nat)
    requires
        1075 <= exponent,
        pattern == exponent * 0x10_0000_0000_0000 + fraction,
        fraction < 0x10_0000_0000_0000,
    ensures
        nearest_to(pattern) == (0x10_0000_0000_0000 + fraction) * crate::rounding::power((exponent - 1075) as nat),
        exponent > 1086 ==> nearest_to(pattern) >= 0x1_0000_0000_0000_0000,
{
    vstd::arithmetic::power2::lemma2_to64();
    vstd::arithmetic::power2::lemma2_to64_rest();
    let significand = 0x10_0000_0000_0000 + fraction as int;
    let factor = crate::rounding::power((exponent - 1075) as nat) as int;
    let one = crate::rounding::power(1074) as int;
    vstd::arithmetic::power2::lemma_pow2_adds((exponent - 1075) as nat, 1074);
    vstd::arithmetic::power2::lemma_pow2_pos(1074);
    let product = significand * factor;
    assert(crate::rounding::magnitude(pattern, 52) == significand * (factor * one));
    assert(significand * (factor * one) == product * one) by (nonlinear_arith)
        requires
            product == significand * factor,
    ;
    let numerator = 2 * (product * one) + one;
    assert(numerator == product * (2 * one) + one) by (nonlinear_arith)
        requires
            numerator == 2 * (product * one) + one,
    ;
    vstd::arithmetic::div_mod::lemma_fundamental_div_mod_converse(numerator, 2 * one, product, one);
    if exponent > 1086 {
        if exponent > 1087 {
            vstd::arithmetic::power2::lemma_pow2_strictly_increases(12, (exponent - 1075) as nat);
        }
        assert(significand * factor >= 0x10_0000_0000_0000 * 0x1000) by (nonlinear_arith)
            requires
                significand >= 0x10_0000_0000_0000,
                factor >= 0x1000,
        ;
    }
}

proof fn lemma_product_fits(significand: nat, exponent: nat)
    requires
        significand < 0x20_0000_0000_0000,
        exponent <= 11,
    ensures
        significand * crate::rounding::power(exponent) <= 0x1_0000_0000_0000_0000,
{
    vstd::arithmetic::power2::lemma2_to64();
    if exponent < 11 {
        vstd::arithmetic::power2::lemma_pow2_strictly_increases(exponent, 11);
    }
    let factor = crate::rounding::power(exponent) as int;
    assert(significand * factor <= 0x20_0000_0000_0000 * 0x800) by (nonlinear_arith)
        requires
            significand < 0x20_0000_0000_0000,
            0 <= factor <= 0x800,
    ;
}

/// The nearest integer is at most half a unit away.
pub proof fn nearest_is_within_half(number: Binary64)
    ensures
        ({
            let one = crate::rounding::power(1074) as int;
            -one <= 2 * (number.units() - number.nearest() * one) <= one
        }),
{
    let one = crate::rounding::power(1074) as int;
    vstd::arithmetic::power2::lemma_pow2_pos(1074);
    let size = number.size() as int;
    let integer = nearest_to(number.pattern()) as int;
    vstd::arithmetic::div_mod::lemma_fundamental_div_mod(2 * size + one, 2 * one);
    vstd::arithmetic::div_mod::lemma_mod_bound(2 * size + one, 2 * one);
    let rest = (2 * size + one) % (2 * one);
    assert(2 * size + one == (2 * one) * integer + rest);
    assert((2 * one) * integer == 2 * (integer * one)) by (nonlinear_arith);
    assert((-integer) * one == -(integer * one)) by (nonlinear_arith);
}

/// Rounding to the nearest integer keeps the order of two finite numbers.
pub proof fn nearest_is_monotonic(low: Binary64, high: Binary64)
    requires
        low.units() <= high.units(),
    ensures
        low.nearest() <= high.nearest(),
{
    let one = crate::rounding::power(1074) as int;
    vstd::arithmetic::power2::lemma_pow2_pos(1074);
    let small = crate::rounding::magnitude(low.pattern(), 52) as int;
    let large = crate::rounding::magnitude(high.pattern(), 52) as int;
    if small <= large {
        vstd::arithmetic::div_mod::lemma_div_is_ordered(2 * small + one, 2 * large + one, 2 * one);
    } else {
        vstd::arithmetic::div_mod::lemma_div_is_ordered(2 * large + one, 2 * small + one, 2 * one);
    }
    vstd::arithmetic::div_mod::lemma_div_pos_is_pos(2 * small + one, 2 * one);
    vstd::arithmetic::div_mod::lemma_div_pos_is_pos(2 * large + one, 2 * one);
    if small == large && small == 0 {
        vstd::arithmetic::div_mod::lemma_basic_div(one, 2 * one);
    }
}

/// A binary32 number is the same number in binary64.
pub proof fn widening_is_exact(number: Binary32)
    requires
        number.is_finite(),
    ensures
        number.widened().is_finite(),
        number.widened().units() == number.units() * crate::rounding::power(925),
{
    lemma_formats();
    let pattern = number.pattern() as int;
    let size = number.size() as int;
    let unit = crate::rounding::power(925) as int;
    crate::rounding::zero_has_no_magnitude(number.pattern(), 23);
    crate::rounding::zero_has_no_magnitude(0, 52);
    assert((-size) * unit == -(size * unit)) by (nonlinear_arith);
    if size == 0 {
        crate::rounding::nothing_rounds_to_zero(1, 52, INFINITY_64 as nat);
        assert(size * unit == 0);
    } else {
        vstd::arithmetic::power2::lemma2_to64();
        vstd::arithmetic::power2::lemma2_to64_rest();
        assert(crate::rounding::power(23) == 0x80_0000);
        assert(crate::rounding::power(53) == 0x20_0000_0000_0000);
        let exponent = pattern / 0x80_0000;
        let fraction = pattern % 0x80_0000;
        let (significand, x): (int, int) = if exponent == 0 {
            (fraction, 0)
        } else {
            (0x80_0000 + fraction, exponent - 1)
        };
        let px = crate::rounding::power(x as nat) as int;
        assert(size == significand * px) by {
            if exponent == 0 {
                assert(fraction * px == fraction) by (nonlinear_arith)
                    requires
                        px == 1,
                ;
            }
        }
        vstd::arithmetic::power2::lemma_pow2_adds(x as nat, 925);
        assert((significand * px) * unit == significand * (px * unit)) by (nonlinear_arith);
        crate::rounding::few_bits_are_exact(significand as nat, (x + 925) as nat, 52, 2047);
    }
}

/// A finite quotient by a positive number is the exact one, but for one part in 2^24 of it and
/// half of the smallest positive number.
pub proof fn quotient_is_close_32(number: Binary32, divisor: Binary32)
    requires
        number.is_finite(),
        divisor.is_positive(),
        number.quotient(divisor).is_finite(),
    ensures
        ({
            let result = number.quotient(divisor);
            let gap = number.units() * crate::rounding::power(149) - result.units() * divisor.units();
            let bound = result.size() * divisor.size() + crate::rounding::power(23) * divisor.size();
            &&& -bound <= 2 * crate::rounding::power(23) * gap <= bound
            &&& result.units() > 0 ==> number.units() > 0
            &&& result.units() < 0 ==> number.units() < 0
        }),
{
    let one = crate::rounding::power(149) as int;
    let scale = crate::rounding::power(23) as int;
    let size = number.size() as int;
    let d = divisor.size() as int;
    let result = number.quotient(divisor);
    let pattern = Binary32::rounded((size * one) as nat, d as nat);
    crate::rounding::zero_has_no_magnitude(divisor.pattern(), 23);
    crate::rounding::zero_has_no_magnitude(number.pattern(), 23);
    crate::rounding::zero_has_no_magnitude(0, 23);
    assert(pattern <= INFINITY_32);
    assert(result.pattern() == pattern);
    crate::rounding::rounding_exists((size * one) as nat, d as nat, 23);
    crate::rounding::rounding_is_near(pattern, (size * one) as nat, d as nat, 23);
    let q = result.size() as int;
    assert((-size) * one == -(size * one)) by (nonlinear_arith);
    assert((-q) * d == -(q * d)) by (nonlinear_arith);
    let gap = size * one - q * d;
    assert((2 * scale) * (-gap) == -((2 * scale) * gap)) by (nonlinear_arith);
    if size == 0 {
        crate::rounding::nothing_rounds_to_zero(d as nat, 23, INFINITY_32 as nat);
        assert(0 * one == 0);
    }
}

/// A finite product is the exact one, but for one part in 2^24 of it and half of the smallest
/// positive number.
pub proof fn product_is_close_32(first: Binary32, second: Binary32)
    requires
        first.is_finite(),
        second.is_finite(),
        first.product(second).is_finite(),
    ensures
        ({
            let result = first.product(second);
            let one = crate::rounding::power(149);
            let gap = first.units() * second.units() - result.units() * one;
            let bound = result.size() * one + crate::rounding::power(23) * one;
            -bound <= 2 * crate::rounding::power(23) * gap <= bound
        }),
{
    let one = crate::rounding::power(149) as int;
    let scale = crate::rounding::power(23) as int;
    let a = first.size() as int;
    let b = second.size() as int;
    let result = first.product(second);
    let pattern = Binary32::rounded((a * b) as nat, one as nat);
    vstd::arithmetic::power2::lemma_pow2_pos(149);
    assert(pattern <= INFINITY_32);
    assert(result.pattern() == pattern);
    crate::rounding::rounding_exists((a * b) as nat, one as nat, 23);
    crate::rounding::rounding_is_near(pattern, (a * b) as nat, one as nat, 23);
    let p = result.size() as int;
    assert((-a) * b == -(a * b)) by (nonlinear_arith);
    assert(a * (-b) == -(a * b)) by (nonlinear_arith);
    assert((-a) * (-b) == a * b) by (nonlinear_arith);
    assert((-p) * one == -(p * one)) by (nonlinear_arith);
    let gap = a * b - p * one;
    assert((2 * scale) * (-gap) == -((2 * scale) * gap)) by (nonlinear_arith);
}

/// A finite quotient by a positive number is the exact one, but for one part in 2^53 of it and
/// half of the smallest positive number.
pub proof fn quotient_is_close_64(number: Binary64, divisor: Binary64)
    requires
        number.is_finite(),
        divisor.is_positive(),
        number.quotient(divisor).is_finite(),
    ensures
        ({
            let result = number.quotient(divisor);
            let gap = number.units() * crate::rounding::power(1074) - result.units() * divisor.units();
            let bound = result.size() * divisor.size() + crate::rounding::power(52) * divisor.size();
            &&& -bound <= 2 * crate::rounding::power(52) * gap <= bound
            &&& result.units() > 0 ==> number.units() > 0
            &&& result.units() < 0 ==> number.units() < 0
        }),
{
    let one = crate::rounding::power(1074) as int;
    let scale = crate::rounding::power(52) as int;
    let size = number.size() as int;
    let d = divisor.size() as int;
    let result = number.quotient(divisor);
    let pattern = Binary64::rounded((size * one) as nat, d as nat);
    crate::rounding::zero_has_no_magnitude(divisor.pattern(), 52);
    crate::rounding::zero_has_no_magnitude(number.pattern(), 52);
    crate::rounding::zero_has_no_magnitude(0, 52);
    assert(pattern <= INFINITY_64);
    assert(result.pattern() == pattern);
    crate::rounding::rounding_exists((size * one) as nat, d as nat, 52);
    crate::rounding::rounding_is_near(pattern, (size * one) as nat, d as nat, 52);
    let q = result.size() as int;
    assert((-size) * one == -(size * one)) by (nonlinear_arith);
    assert((-q) * d == -(q * d)) by (nonlinear_arith);
    let gap = size * one - q * d;
    assert((2 * scale) * (-gap) == -((2 * scale) * gap)) by (nonlinear_arith);
    if size == 0 {
        crate::rounding::nothing_rounds_to_zero(d as nat, 52, INFINITY_64 as nat);
        assert(0 * one == 0);
    }
}

/// A finite product is the exact one, but for one part in 2^53 of it and half of the smallest
/// positive number.
pub proof fn product_is_close_64(first: Binary64, second: Binary64)
    requires
        first.is_finite(),
        second.is_finite(),
        first.product(second).is_finite(),
    ensures
        ({
            let result = first.product(second);
            let one = crate::rounding::power(1074);
            let gap = first.units() * second.units() - result.units() * one;
            let bound = result.size() * one + crate::rounding::power(52) * one;
            -bound <= 2 * crate::rounding::power(52) * gap <= bound
        }),
{
    let one = crate::rounding::power(1074) as int;
    let scale = crate::rounding::power(52) as int;
    let a = first.size() as int;
    let b = second.size() as int;
    let result = first.product(second);
    let pattern = Binary64::rounded((a * b) as nat, one as nat);
    vstd::arithmetic::power2::lemma_pow2_pos(1074);
    assert(pattern <= INFINITY_64);
    assert(result.pattern() == pattern);
    crate::rounding::rounding_exists((a * b) as nat, one as nat, 52);
    crate::rounding::rounding_is_near(pattern, (a * b) as nat, one as nat, 52);
    let p = result.size() as int;
    assert((-a) * b == -(a * b)) by (nonlinear_arith);
    assert(a * (-b) == -(a * b)) by (nonlinear_arith);
    assert((-a) * (-b) == a * b) by (nonlinear_arith);
    assert((-p) * one == -(p * one)) by (nonlinear_arith);
    let gap = a * b - p * one;
    assert((2 * scale) * (-gap) == -((2 * scale) * gap)) by (nonlinear_arith);
}

/// Whether `value` is `count` times `lsb`, but for one part in 2^24 of it and half of the smallest
/// positive number.
pub open spec fn is_scaled_32(value: Binary32, count: int, lsb: Binary32) -> bool {
    let scale = crate::rounding::power(23) as int;
    let bound = value.size() + scale;
    &&& value.is_finite()
    &&& -bound <= 2 * scale * (count * lsb.units() - value.units()) <= bound
}

/// An integer of at most 24 bits is exact.
pub proof fn small_integers_are_exact_32(count: int)
    requires
        -0x100_0000 < count < 0x100_0000,
    ensures
        Binary32::of_integer(count).is_finite(),
        Binary32::of_integer(count).units() == count * crate::rounding::power(149),
{
    lemma_formats();
    vstd::arithmetic::power2::lemma2_to64();
    vstd::arithmetic::power2::lemma2_to64_rest();
    let one = crate::rounding::power(149) as int;
    let size = if count < 0 {
        -count
    } else {
        count
    };
    crate::rounding::zero_has_no_magnitude(0, 23);
    assert((-size) * one == -(size * one)) by (nonlinear_arith);
    if count == 0 {
        assert(0 * one == 0);
        crate::rounding::nothing_rounds_to_zero(1, 23, INFINITY_32 as nat);
    } else {
        crate::rounding::few_bits_are_exact(size as nat, 149, 23, 255);
    }
}

/// An integer of at most 24 bits, scaled by a number below two, is the exact product, but for one
/// rounding.
pub proof fn scaling_is_close_32(count: int, lsb: Binary32)
    requires
        -0x100_0000 < count < 0x100_0000,
        lsb.bits < 0x4000_0000,
    ensures
        is_scaled_32(Binary32::of_integer(count).product(lsb), count, lsb),
{
    lemma_formats();
    vstd::arithmetic::power2::lemma2_to64();
    vstd::arithmetic::power2::lemma2_to64_rest();
    small_integers_are_exact_32(count);
    let one = crate::rounding::power(149) as int;
    let scale = crate::rounding::power(23) as int;
    let integer = Binary32::of_integer(count);
    let value = integer.product(lsb);
    let a = integer.size() as int;
    let l = lsb.size() as int;
    let size = if count < 0 {
        -count
    } else {
        count
    };
    vstd::arithmetic::power2::lemma_pow2_pos(149);
    assert((-size) * one == -(size * one)) by (nonlinear_arith);
    assert(size * one >= 0) by (nonlinear_arith)
        requires
            size >= 0,
            one > 0,
    ;
    assert(a == size * one);
    lemma_size_below_two_32(lsb);
    let top = crate::rounding::power(174) as int;
    let limit = crate::rounding::power(150) as int;
    vstd::arithmetic::power2::lemma_pow2_adds(24, 150);
    assert(crate::rounding::power(24) == 0x100_0000);
    assert(size * l <= top) by (nonlinear_arith)
        requires
            0 <= size <= 0x100_0000,
            0 <= l <= limit,
            top == 0x100_0000 * limit,
    ;
    assert(a * l == (size * l) * one) by (nonlinear_arith)
        requires
            a == size * one,
    ;
    assert((size * l) * one <= top * one) by (nonlinear_arith)
        requires
            size * l <= top,
            one > 0,
    ;
    assert(0 <= (size * l) * one) by (nonlinear_arith)
        requires
            size >= 0,
            l >= 0,
            one > 0,
    ;
    crate::rounding::few_bits_are_exact(1, 174, 23, 255);
    assert(1 * top == top);
    assert((top * one) * 1 == top * one);
    crate::rounding::rounding_exists((top * one) as nat, one as nat, 23);
    crate::rounding::equal_fractions_round_alike((top * one) as nat, one as nat, top as nat, 1, 23, INFINITY_32 as nat);
    crate::rounding::rounding_is_monotonic((a * l) as nat, (top * one) as nat, one as nat, 23, INFINITY_32 as nat);
    let pattern = Binary32::rounded((a * l) as nat, one as nat);
    assert(pattern < INFINITY_32);
    assert(value.pattern() == pattern);
    product_is_close_32(integer, lsb);
    let gap = count * l - value.units();
    let bound = value.size() + scale;
    assert(integer.units() * l - value.units() * one == gap * one) by (nonlinear_arith)
        requires
            integer.units() == count * one,
            gap == count * l - value.units(),
    ;
    assert(value.size() * one + scale * one == bound * one) by (nonlinear_arith)
        requires
            bound == value.size() + scale,
    ;
    assert((2 * scale) * (gap * one) == ((2 * scale) * gap) * one) by (nonlinear_arith);
    let twice = (2 * scale) * gap;
    assert(-bound <= twice <= bound) by (nonlinear_arith)
        requires
            -(bound * one) <= twice * one <= bound * one,
            one > 0,
    ;
}

/// A number below two is below 2^150 units.
proof fn lemma_size_below_two_32(number: Binary32)
    requires
        number.bits < 0x4000_0000,
    ensures
        number.units() == number.size(),
        number.size() <= crate::rounding::power(150),
{
    vstd::arithmetic::power2::lemma2_to64();
    vstd::arithmetic::power2::lemma2_to64_rest();
    let one = crate::rounding::power(23) as int;
    crate::rounding::magnitude_is_monotonic(number.bits as nat, 0x4000_0000, 23);
    assert(0x4000_0000nat / crate::rounding::power(23) == 128 && 0x4000_0000nat % crate::rounding::power(23) == 0);
    vstd::arithmetic::power2::lemma_pow2_adds(23, 127);
    assert((one + 0) * crate::rounding::power(127) == crate::rounding::power(150));
}

/// Whether `value` is `count` times `lsb`, but for one part in 2^53 of it and half of the smallest
/// positive number.
pub open spec fn is_scaled_64(value: Binary64, count: int, lsb: Binary64) -> bool {
    let scale = crate::rounding::power(52) as int;
    let bound = value.size() + scale;
    &&& value.is_finite()
    &&& -bound <= 2 * scale * (count * lsb.units() - value.units()) <= bound
}

/// An integer of at most 53 bits is exact.
pub proof fn small_integers_are_exact_64(count: int)
    requires
        -0x20_0000_0000_0000 < count < 0x20_0000_0000_0000,
    ensures
        Binary64::of_integer(count).is_finite(),
        Binary64::of_integer(count).units() == count * crate::rounding::power(1074),
{
    lemma_formats();
    vstd::arithmetic::power2::lemma2_to64();
    vstd::arithmetic::power2::lemma2_to64_rest();
    let one = crate::rounding::power(1074) as int;
    let size = if count < 0 {
        -count
    } else {
        count
    };
    crate::rounding::zero_has_no_magnitude(0, 52);
    assert((-size) * one == -(size * one)) by (nonlinear_arith);
    if count == 0 {
        assert(0 * one == 0);
        crate::rounding::nothing_rounds_to_zero(1, 52, INFINITY_64 as nat);
    } else {
        crate::rounding::few_bits_are_exact(size as nat, 1074, 52, 2047);
    }
}

/// An integer of at most 53 bits, scaled by a number below two, is the exact product, but for one
/// rounding.
pub proof fn scaling_is_close_64(count: int, lsb: Binary64)
    requires
        -0x20_0000_0000_0000 < count < 0x20_0000_0000_0000,
        lsb.bits < 0x4000_0000_0000_0000,
    ensures
        is_scaled_64(Binary64::of_integer(count).product(lsb), count, lsb),
{
    lemma_formats();
    vstd::arithmetic::power2::lemma2_to64();
    vstd::arithmetic::power2::lemma2_to64_rest();
    small_integers_are_exact_64(count);
    let one = crate::rounding::power(1074) as int;
    let scale = crate::rounding::power(52) as int;
    let integer = Binary64::of_integer(count);
    let value = integer.product(lsb);
    let a = integer.size() as int;
    let l = lsb.size() as int;
    let size = if count < 0 {
        -count
    } else {
        count
    };
    vstd::arithmetic::power2::lemma_pow2_pos(1074);
    assert((-size) * one == -(size * one)) by (nonlinear_arith);
    assert(size * one >= 0) by (nonlinear_arith)
        requires
            size >= 0,
            one > 0,
    ;
    assert(a == size * one);
    lemma_size_below_two_64(lsb);
    let top = crate::rounding::power(1128) as int;
    let limit = crate::rounding::power(1075) as int;
    vstd::arithmetic::power2::lemma_pow2_adds(53, 1075);
    assert(crate::rounding::power(53) == 0x20_0000_0000_0000);
    assert(size * l <= top) by (nonlinear_arith)
        requires
            0 <= size <= 0x20_0000_0000_0000,
            0 <= l <= limit,
            top == 0x20_0000_0000_0000 * limit,
    ;
    assert(a * l == (size * l) * one) by (nonlinear_arith)
        requires
            a == size * one,
    ;
    assert((size * l) * one <= top * one) by (nonlinear_arith)
        requires
            size * l <= top,
            one > 0,
    ;
    assert(0 <= (size * l) * one) by (nonlinear_arith)
        requires
            size >= 0,
            l >= 0,
            one > 0,
    ;
    crate::rounding::few_bits_are_exact(1, 1128, 52, 2047);
    assert(1 * top == top);
    assert((top * one) * 1 == top * one);
    crate::rounding::rounding_exists((top * one) as nat, one as nat, 52);
    crate::rounding::equal_fractions_round_alike((top * one) as nat, one as nat, top as nat, 1, 52, INFINITY_64 as nat);
    crate::rounding::rounding_is_monotonic((a * l) as nat, (top * one) as nat, one as nat, 52, INFINITY_64 as nat);
    let pattern = Binary64::rounded((a * l) as nat, one as nat);
    assert(pattern < INFINITY_64);
    assert(value.pattern() == pattern);
    product_is_close_64(integer, lsb);
    let gap = count * l - value.units();
    let bound = value.size() + scale;
    assert(integer.units() * l - value.units() * one == gap * one) by (nonlinear_arith)
        requires
            integer.units() == count * one,
            gap == count * l - value.units(),
    ;
    assert(value.size() * one + scale * one == bound * one) by (nonlinear_arith)
        requires
            bound == value.size() + scale,
    ;
    assert((2 * scale) * (gap * one) == ((2 * scale) * gap) * one) by (nonlinear_arith);
    let twice = (2 * scale) * gap;
    assert(-bound <= twice <= bound) by (nonlinear_arith)
        requires
            -(bound * one) <= twice * one <= bound * one,
            one > 0,
    ;
}

/// A number below two is below 2^1075 units.
proof fn lemma_size_below_two_64(number: Binary64)
    requires
        number.bits < 0x4000_0000_0000_0000,
    ensures
        number.units() == number.size(),
        number.size() <= crate::rounding::power(1075),
{
    vstd::arithmetic::power2::lemma2_to64();
    vstd::arithmetic::power2::lemma2_to64_rest();
    let one = crate::rounding::power(52) as int;
    crate::rounding::magnitude_is_monotonic(number.bits as nat, 0x4000_0000_0000_0000, 52);
    assert(0x4000_0000_0000_0000nat / crate::rounding::power(52) == 1024 && 0x4000_0000_0000_0000nat % crate::rounding::power(52) == 0);
    vstd::arithmetic::power2::lemma_pow2_adds(52, 1023);
    assert((one + 0) * crate::rounding::power(1023) == crate::rounding::power(1075));
}

/// A finite sum is the exact one, but for one part in 2^24 of it and half of the smallest positive
/// number.
pub proof fn sum_is_close(first: Binary32, second: Binary32)
    requires
        first.is_finite(),
        second.is_finite(),
        first.sum(second).is_finite(),
    ensures
        ({
            let result = first.sum(second);
            let gap = first.units() + second.units() - result.units();
            let bound = result.size() + crate::rounding::power(23);
            -bound <= 2 * crate::rounding::power(23) * gap <= bound
        }),
{
    let exact = first.units() + second.units();
    let size = if exact < 0 {
        -exact
    } else {
        exact
    };
    let scale = crate::rounding::power(23) as int;
    let result = first.sum(second);
    crate::rounding::zero_has_no_magnitude(0, 23);
    vstd::arithmetic::power2::lemma2_to64();
    assert(scale == 0x80_0000);
    if exact == 0 {
        assert(result.pattern() == 0);
    } else {
        let pattern = Binary32::rounded(size as nat, 1);
        assert(pattern <= INFINITY_32);
        assert(result.pattern() == pattern);
        crate::rounding::rounding_exists(size as nat, 1, 23);
        crate::rounding::rounding_is_near(pattern, size as nat, 1, 23);
        let distance = size - result.size() * 1;
        assert(2 * scale * distance == 0x100_0000 * distance) by (nonlinear_arith)
            requires
                scale == 0x80_0000,
        ;
    }
    let gap = exact - result.units();
    assert(2 * scale * gap == 0x100_0000 * gap) by (nonlinear_arith)
        requires
            scale == 0x80_0000,
    ;
}

/// Raising the exponent of a number by two makes it four times as large.
pub proof fn two_exponents_are_a_factor_of_four(bits: u32)
    requires
        0x80_0000 <= bits < 0x7E80_0000,
    ensures
        (Binary32 { bits: (bits + 0x100_0000) as u32 }).units() == 4 * (Binary32 { bits }).units(),
{
    vstd::arithmetic::power2::lemma2_to64();
    let exponent = bits as int / 0x80_0000;
    let fraction = bits as int % 0x80_0000;
    assert((bits + 0x100_0000) / 0x80_0000 == exponent + 2);
    assert((bits + 0x100_0000) % 0x80_0000 == fraction);
    vstd::arithmetic::power2::lemma_pow2_adds((exponent - 1) as nat, 2);
    let step = crate::rounding::power((exponent - 1) as nat) as int;
    assert((0x80_0000 + fraction) * (step * 4) == 4 * ((0x80_0000 + fraction) * step)) by (nonlinear_arith);
}

/// The opposite of a number is its negation.
pub proof fn opposite_is_negation(number: Binary32)
    ensures
        number.opposite().units() == -number.units(),
        number.is_finite() <==> number.opposite().is_finite(),
        number.opposite().opposite() == number,
{
    let opposite = number.opposite();
    assert(opposite.pattern() == number.pattern());
    assert(opposite.is_negative() != number.is_negative());
    assert(opposite.opposite().bits == number.bits);
}

/// A number is positive exactly if its bits are above those of zero and below those of the
/// infinity.
pub proof fn positive_numbers_have_positive_bits(single: Binary32, double: Binary64)
    ensures
        single.is_positive() <==> 0 < single.bits < 0x7F80_0000,
        double.is_positive() <==> 0 < double.bits < 0x7FF0_0000_0000_0000,
        single.is_nan() <==> single.bits % 0x8000_0000 > 0x7F80_0000,
        double.is_nan() <==> double.bits % 0x8000_0000_0000_0000 > 0x7FF0_0000_0000_0000,
        single.is_finite() <==> single.bits % 0x8000_0000 < 0x7F80_0000,
        double.is_finite() <==> double.bits % 0x8000_0000_0000_0000 < 0x7FF0_0000_0000_0000,
{
    crate::rounding::zero_has_no_magnitude(single.pattern(), 23);
    crate::rounding::zero_has_no_magnitude(double.pattern(), 52);
}

/// Numbers that are not NaN compare equal exactly if they have the same value: finite numbers the
/// same number of units, infinities the same sign. NaN equals nothing.
pub proof fn numbers_compare_by_value(first: Binary32, second: Binary32, third: Binary64, fourth: Binary64)
    ensures
        first.is_nan() || second.is_nan() ==> !vstd::std_specs::cmp::PartialEqSpec::eq_spec(&first, &second),
        third.is_nan() || fourth.is_nan() ==> !vstd::std_specs::cmp::PartialEqSpec::eq_spec(&third, &fourth),
        first.is_finite() && second.is_finite() ==> (vstd::std_specs::cmp::PartialEqSpec::eq_spec(&first, &second)
            <==> first.units() == second.units()),
        third.is_finite() && fourth.is_finite() ==> (vstd::std_specs::cmp::PartialEqSpec::eq_spec(&third, &fourth)
            <==> third.units() == fourth.units()),
        first.is_infinite() && !second.is_nan() ==> (vstd::std_specs::cmp::PartialEqSpec::eq_spec(&first, &second)
            <==> first == second),
        third.is_infinite() && !fourth.is_nan() ==> (vstd::std_specs::cmp::PartialEqSpec::eq_spec(&third, &fourth)
            <==> third == fourth),
{
    crate::rounding::zero_has_no_magnitude(first.pattern(), 23);
    crate::rounding::zero_has_no_magnitude(second.pattern(), 23);
    crate::rounding::zero_has_no_magnitude(third.pattern(), 52);
    crate::rounding::zero_has_no_magnitude(fourth.pattern(), 52);
    if first.pattern() < second.pattern() {
        crate::rounding::magnitude_is_monotonic(first.pattern(), second.pattern(), 23);
    } else if second.pattern() < first.pattern() {
        crate::rounding::magnitude_is_monotonic(second.pattern(), first.pattern(), 23);
    }
    if third.pattern() < fourth.pattern() {
        crate::rounding::magnitude_is_monotonic(third.pattern(), fourth.pattern(), 52);
    } else if fourth.pattern() < third.pattern() {
        crate::rounding::magnitude_is_monotonic(fourth.pattern(), third.pattern(), 52);
    }
}

/// Halfway between two integers the nearest one is that away from zero.
pub proof fn halves_round_away_from_zero(number: Binary64, integer: nat)
    requires
        2 * number.size() == (2 * integer + 1) * crate::rounding::power(1074),
    ensures
        !number.is_negative() ==> number.nearest() == integer + 1,
        number.is_negative() ==> number.nearest() == -(integer + 1),
{
    let one = crate::rounding::power(1074) as int;
    let n = integer as int;
    vstd::arithmetic::power2::lemma_pow2_pos(1074);
    assert((2 * n + 1) * one + one == (n + 1) * (2 * one) + 0) by (nonlinear_arith);
    vstd::arithmetic::div_mod::lemma_fundamental_div_mod_converse(2 * number.size() + one, 2 * one, n + 1, 0);
}

/// The integer nearest to a finite quotient by a positive number is the nearest to the exact
/// quotient, as far as binary64 can tell: twice the distance is at most one divisor, and one part
/// in 2^52 of the integer and two.
pub proof fn nearest_quotient_is_close(number: Binary64, divisor: Binary64)
    requires
        number.is_finite(),
        divisor.is_positive(),
        number.quotient(divisor).is_finite(),
    ensures
        ({
            let integer = number.quotient(divisor).nearest();
            let size = if integer < 0 {
                -integer
            } else {
                integer
            };
            let twice = 2 * (number.units() - integer * divisor.units());
            let bound = divisor.units() * (0x10_0000_0000_0000 + size + 2);
            -bound <= twice * 0x10_0000_0000_0000 <= bound
        }),
{
    let one = crate::rounding::power(1074) as int;
    let scale = crate::rounding::power(52) as int;
    let quotient = number.quotient(divisor);
    let n = quotient.nearest();
    let v = number.units();
    let d = divisor.units();
    let q = quotient.units();
    let size = if n < 0 {
        -n
    } else {
        n
    };
    vstd::arithmetic::power2::lemma2_to64_rest();
    assert(scale == 0x10_0000_0000_0000);
    vstd::arithmetic::power2::lemma_pow2_pos(1074);
    crate::rounding::lemma_power_grows(52, 1074);
    quotient_is_close_64(number, divisor);
    nearest_is_within_half(quotient);
    lemma_nearest_is_close(v, d, q, n, size, one, scale);
}

/// The arithmetic behind the distance of the nearest integer.
proof fn lemma_nearest_is_close(v: int, d: int, q: int, n: int, size: int, one: int, scale: int)
    requires
        d > 0,
        0 < scale <= one,
        size == (if n < 0 {
            -n
        } else {
            n
        }),
        -one <= 2 * (q - n * one) <= one,
        ({
            let bound = (if q < 0 {
                -q
            } else {
                q
            }) * d + scale * d;
            -bound <= 2 * scale * (v * one - q * d) <= bound
        }),
    ensures
        -(d * (scale + size + 2)) <= 2 * (v - n * d) * scale <= d * (scale + size + 2),
{
    let qs = if q < 0 {
        -q
    } else {
        q
    };
    let gap = v * one - q * d;
    let rest = q - n * one;
    assert((-n) * one == -(n * one)) by (nonlinear_arith);
    assert(qs <= (size + 1) * one) by (nonlinear_arith)
        requires
            -one <= 2 * rest <= one,
            rest == q - n * one,
            one > 0,
            size == (if n < 0 {
                -n
            } else {
                n
            }),
            qs == (if q < 0 {
                -q
            } else {
                q
            }),
    ;
    assert(qs * d <= ((size + 1) * one) * d) by (nonlinear_arith)
        requires
            qs <= (size + 1) * one,
            d > 0,
    ;
    assert(scale * d <= one * d) by (nonlinear_arith)
        requires
            scale <= one,
            d > 0,
    ;
    let whole = (v - n * d) * one;
    assert(whole == gap + rest * d) by (nonlinear_arith)
        requires
            whole == (v - n * d) * one,
            gap == v * one - q * d,
            rest == q - n * one,
    ;
    let m = scale * d;
    assert((2 * scale) * (rest * d) == (2 * rest) * m) by (nonlinear_arith)
        requires
            m == scale * d,
    ;
    assert(m > 0) by (nonlinear_arith)
        requires
            m == scale * d,
            scale > 0,
            d > 0,
    ;
    assert(-(one * m) <= (2 * rest) * m <= one * m) by (nonlinear_arith)
        requires
            -one <= 2 * rest <= one,
            m > 0,
    ;
    assert((2 * scale) * whole == (2 * scale) * gap + (2 * scale) * (rest * d)) by (nonlinear_arith)
        requires
            whole == gap + rest * d,
    ;
    let bound = d * (scale + size + 2);
    assert(((size + 1) * one) * d + one * d + one * (scale * d) == bound * one) by (nonlinear_arith)
        requires
            bound == d * (scale + size + 2),
    ;
    let twice = 2 * (v - n * d) * scale;
    assert((2 * scale) * whole == twice * one) by (nonlinear_arith)
        requires
            twice == 2 * (v - n * d) * scale,
            whole == (v - n * d) * one,
    ;
    assert(-bound <= twice <= bound) by (nonlinear_arith)
        requires
            -(bound * one) <= twice * one <= bound * one,
            one > 0,
    ;
}

/// What an exact multiple of the divisor is rounded to.
proof fn lemma_quotient_of_multiple(divisor: Binary64, q: nat, e: nat)
    requires
        divisor.is_positive(),
        0 < q <= 0x1F_FFFF_FFFF_FFFF,
        e <= 63,
    ensures
        ({
            let one = crate::rounding::power(1074);
            let bound = q * crate::rounding::power(e);
            let pattern = Binary64::rounded(bound * divisor.size() * one, divisor.size());
            &&& pattern < INFINITY_64
            &&& crate::rounding::magnitude(pattern, 52) == bound * one
        }),
{
    let one = crate::rounding::power(1074) as int;
    let factor = crate::rounding::power(e) as int;
    let bound = q * factor;
    let d = divisor.size() as int;
    lemma_formats();
    vstd::arithmetic::power2::lemma2_to64();
    vstd::arithmetic::power2::lemma2_to64_rest();
    vstd::arithmetic::power2::lemma_pow2_adds(e, 1074);
    crate::rounding::zero_has_no_magnitude(divisor.pattern(), 52);
    crate::rounding::few_bits_are_exact(q, e + 1074, 52, 2047);
    assert(q * (factor * one) == bound * one) by (nonlinear_arith)
        requires
            bound == q * factor,
    ;
    assert((bound * d * one) * 1 == (bound * one) * d) by (nonlinear_arith);
    assert(bound * one >= 0 && bound * d * one >= 0) by (nonlinear_arith)
        requires
            bound == q * factor,
            q > 0,
            factor >= 0,
            one >= 0,
            d >= 0,
    ;
    crate::rounding::rounding_exists((bound * d * one) as nat, d as nat, 52);
    crate::rounding::equal_fractions_round_alike(
        (bound * d * one) as nat,
        d as nat,
        (bound * one) as nat,
        1,
        52,
        INFINITY_64 as nat,
    );
}

/// A number of at most `q * 2^e` divisors has a finite quotient, whose nearest integer is at most
/// that large, and one of at least as many has one that is at least that large or no finite one.
pub proof fn nearest_quotient_is_bounded(number: Binary64, divisor: Binary64, q: nat, e: nat)
    requires
        number.is_finite(),
        divisor.is_positive(),
        0 < q <= 0x1F_FFFF_FFFF_FFFF,
        e <= 63,
    ensures
        ({
            let bound = (q * crate::rounding::power(e)) as int;
            let quotient = number.quotient(divisor);
            &&& number.size() <= bound * divisor.size() ==> quotient.is_finite() && -bound <= quotient.nearest() <= bound
            &&& number.units() >= bound * divisor.units() && quotient.is_finite() ==> quotient.nearest() >= bound
            &&& number.units() <= -(bound * divisor.units()) && quotient.is_finite() ==> quotient.nearest() <= -bound
            &&& number.units() >= 0 && quotient.is_finite() ==> quotient.nearest() >= 0
            &&& number.units() <= 0 && quotient.is_finite() ==> quotient.nearest() <= 0
        }),
{
    let one = crate::rounding::power(1074) as int;
    let bound = (q * crate::rounding::power(e)) as int;
    let d = divisor.size() as int;
    let size = number.size() as int;
    let quotient = number.quotient(divisor);
    vstd::arithmetic::power2::lemma_pow2_pos(1074);
    vstd::arithmetic::power2::lemma_pow2_pos(e);
    assert(bound > 0) by (nonlinear_arith)
        requires
            bound == q * crate::rounding::power(e),
            q > 0,
            crate::rounding::power(e) > 0,
    ;
    crate::rounding::zero_has_no_magnitude(divisor.pattern(), 52);
    crate::rounding::zero_has_no_magnitude(number.pattern(), 52);
    lemma_quotient_of_multiple(divisor, q, e);
    let limit = Binary64::rounded((bound * d * one) as nat, d as nat);
    let pattern = Binary64::rounded((size * one) as nat, d as nat);
    assert(pattern <= INFINITY_64);
    assert(quotient.pattern() == pattern);
    let nearest = nearest_to(pattern) as int;
    let result = quotient.size() as int;
    assert(bound * d >= 0) by (nonlinear_arith)
        requires
            bound > 0,
            d > 0,
    ;
    lemma_integer_of_multiple(bound, one);
    vstd::arithmetic::div_mod::lemma_div_pos_is_pos(2 * result + one, 2 * one);
    assert(nearest == (2 * result + one) / (2 * one));
    if size <= bound * d {
        assert(size * one <= (bound * d) * one) by (nonlinear_arith)
            requires
                size <= bound * d,
                one > 0,
        ;
        crate::rounding::rounding_is_monotonic((size * one) as nat, (bound * d * one) as nat, d as nat, 52, INFINITY_64 as nat);
        if pattern < limit {
            crate::rounding::magnitude_is_monotonic(pattern, limit, 52);
        }
        vstd::arithmetic::div_mod::lemma_div_is_ordered(2 * result + one, 2 * (bound * one) + one, 2 * one);
    }
    if size >= bound * d {
        assert(size * one >= (bound * d) * one) by (nonlinear_arith)
            requires
                size >= bound * d,
                one > 0,
        ;
        crate::rounding::rounding_is_monotonic((bound * d * one) as nat, (size * one) as nat, d as nat, 52, INFINITY_64 as nat);
        if limit < pattern {
            crate::rounding::magnitude_is_monotonic(limit, pattern, 52);
        }
        vstd::arithmetic::div_mod::lemma_div_is_ordered(2 * (bound * one) + one, 2 * result + one, 2 * one);
    }
    if size == 0 {
        crate::rounding::nothing_rounds_to_zero(d as nat, 52, INFINITY_64 as nat);
        crate::rounding::zero_has_no_magnitude(0, 52);
        assert(0 * one == 0);
        vstd::arithmetic::div_mod::lemma_basic_div(one, 2 * one);
    }
}

/// An integer is the nearest one to itself.
proof fn lemma_integer_of_multiple(bound: int, one: int)
    requires
        one > 0,
    ensures
        (2 * (bound * one) + one) / (2 * one) == bound,
{
    assert(2 * (bound * one) + one == bound * (2 * one) + one) by (nonlinear_arith);
    vstd::arithmetic::div_mod::lemma_fundamental_div_mod_converse(2 * (bound * one) + one, 2 * one, bound, one);
}

/// Dividing by a positive number keeps the order of two finite numbers.
pub proof fn quotient_is_monotonic(low: Binary64, high: Binary64, divisor: Binary64)
    requires
        low.is_finite(),
        high.is_finite(),
        divisor.is_positive(),
        low.units() <= high.units(),
    ensures
        low.quotient(divisor).units() <= high.quotient(divisor).units(),
{
    let one = crate::rounding::power(1074) as int;
    let a = low.size() as int;
    let b = high.size() as int;
    let p = Binary64::rounded((a * one) as nat, divisor.size());
    let q = Binary64::rounded((b * one) as nat, divisor.size());
    crate::rounding::zero_has_no_magnitude(divisor.pattern(), 52);
    assert(p <= INFINITY_64 && q <= INFINITY_64);
    assert(low.quotient(divisor).pattern() == p);
    assert(high.quotient(divisor).pattern() == q);
    if a <= b {
        assert(a * one <= b * one) by (nonlinear_arith)
            requires
                a <= b,
                one >= 0,
        ;
        crate::rounding::rounding_is_monotonic((a * one) as nat, (b * one) as nat, divisor.size(), 52, INFINITY_64 as nat);
    } else {
        assert(b * one <= a * one) by (nonlinear_arith)
            requires
                b <= a,
                one >= 0,
        ;
        crate::rounding::rounding_is_monotonic((b * one) as nat, (a * one) as nat, divisor.size(), 52, INFINITY_64 as nat);
    }
    if a == 0 && b == 0 {
        crate::rounding::nothing_rounds_to_zero(divisor.size(), 52, INFINITY_64 as nat);
        crate::rounding::zero_has_no_magnitude(0, 52);
        assert(0 * one == 0);
    }
    if p < q {
        crate::rounding::magnitude_is_monotonic(p, q, 52);
    } else if q < p {
        crate::rounding::magnitude_is_monotonic(q, p, 52);
    }
}

/// A fraction over `den` whose numerator is a multiple of it is rounded like the multiple.
proof fn lemma_whole_fraction(whole: nat, den: nat, k: nat, limit: nat)
    requires
        den > 0,
        k > 0,
    ensures
        crate::rounding::rounded(whole * den, den, k, limit) == crate::rounding::rounded(whole, 1, k, limit),
{
    crate::rounding::rounding_exists(whole, 1, k);
    crate::rounding::equal_fractions_round_alike(whole, 1, whole * den, den, k, limit);
}

/// Whether four times `size` lies within one `lsb` of four times `count` of them.
spec fn is_near(size: int, count: int, lsb: int) -> bool {
    (4 * count - 1) * lsb <= 4 * size <= (4 * count + 1) * lsb
}

/// Whether `result` is as close to `exact` as 24 significant bits allow.
spec fn is_close(result: int, exact: int) -> bool {
    if result < 0 {
        result <= 0x100_0000 * (exact - result) <= -result
    } else {
        -result <= 0x100_0000 * (exact - result) <= result
    }
}

/// The product of a count and a number that is neither very small nor very large is close to the
/// exact one.
proof fn lemma_scaled_count(count: nat, lsb: Binary32)
    requires
        0 < count <= 0x8000,
        0x80_0000 <= lsb.bits < 0x7800_0000,
    ensures
        ({
            let unit = crate::rounding::power(149);
            let pattern = Binary32::rounded((count * unit) * lsb.size(), unit);
            let size = crate::rounding::magnitude(pattern, 23) as int;
            &&& 0x80_0000 <= pattern < INFINITY_32
            &&& is_close(size, (count * lsb.size()) as int)
        }),
{
    lemma_formats();
    vstd::arithmetic::power2::lemma2_to64();
    vstd::arithmetic::power2::lemma_pow2_pos(149);
    let unit = crate::rounding::power(149) as int;
    let limit = INFINITY_32 as nat;
    let l = lsb.size() as int;
    let num = (count * unit) * l;
    assert(num == (count * l) * unit && num >= 0) by (nonlinear_arith)
        requires
            num == (count * unit) * l,
            unit > 0,
            l >= 0,
            count >= 0,
    ;

    // The exact product lies between the number itself and 2^15 of them, which are magnitudes.
    let x = (lsb.bits as int) / 0x80_0000 - 1;
    let significand = 0x80_0000 + (lsb.bits as int) % 0x80_0000;
    assert(l == significand * crate::rounding::power(x as nat));
    vstd::arithmetic::power2::lemma_pow2_adds(x as nat, 15);
    let px = crate::rounding::power(x as nat) as int;
    assert(0x8000 * l == significand * (px * 0x8000)) by (nonlinear_arith)
        requires
            l == significand * px,
    ;
    crate::rounding::few_bits_are_exact(significand as nat, (x + 15) as nat, 23, 255);
    crate::rounding::representable_is_exact(lsb.pattern(), 23, limit);
    lemma_whole_fraction(l as nat, unit as nat, 23, limit);
    lemma_whole_fraction((0x8000 * l) as nat, unit as nat, 23, limit);
    assert(l * unit <= num <= (0x8000 * l) * unit) by (nonlinear_arith)
        requires
            num == (count * unit) * l,
            0 < count <= 0x8000,
            unit > 0,
            l >= 0,
    ;
    crate::rounding::rounding_is_monotonic((l * unit) as nat, num as nat, unit as nat, 23, limit);
    crate::rounding::rounding_is_monotonic(num as nat, ((0x8000 * l) * unit) as nat, unit as nat, 23, limit);
    crate::rounding::rounding_exists(num as nat, unit as nat, 23);
    let pattern = Binary32::rounded(num as nat, unit as nat);
    assert(0x80_0000 <= pattern < INFINITY_32);
    assert(crate::rounding::rounds_to(pattern, num as nat, unit as nat, 23));
    crate::rounding::rounding_is_close(pattern, num as nat, unit as nat, 23);
    let p = crate::rounding::magnitude(pattern, 23) as int;
    let exact = count * l;
    assert(-p <= 0x100_0000 * (exact - p) <= p) by (nonlinear_arith)
        requires
            num == exact * unit,
            -(p * unit) <= 0x100_0000 * (num - p * unit) <= p * unit,
            unit > 0,
    ;
}

proof fn lemma_regroup(a: int, b: int, c: int, d: int)
    by (nonlinear_arith)
    ensures
        (a * b) * (c * d) == (a * c) * (b * d),
{
}

/// A quotient that is a quarter away from an integer, at most, has that integer as its nearest.
proof fn lemma_nearest_of_quotient(size: nat, count: nat, lsb: nat, scale: nat)
    requires
        0 < count <= 0x8000,
        lsb > 0,
        scale > 0,
        is_near(size as int, count as int, lsb as int),
    ensures
        ({
            let pattern = Binary64::rounded((size * scale) * crate::rounding::power(1074), lsb * scale);
            &&& pattern < INFINITY_64
            &&& nearest_to(pattern) == count
        }),
{
    lemma_formats();
    vstd::arithmetic::power2::lemma2_to64_rest();
    vstd::arithmetic::power2::lemma_pow2_pos(1072);
    vstd::arithmetic::power2::lemma_pow2_unfold(1074);
    vstd::arithmetic::power2::lemma_pow2_unfold(1073);
    let quarter = crate::rounding::power(1072) as int;
    let one = crate::rounding::power(1074) as int;
    let limit = INFINITY_64 as nat;
    let den = (lsb * scale) as int;
    let num = (size * scale) * one;
    assert(den > 0 && num >= 0) by (nonlinear_arith)
        requires
            den == lsb * scale,
            num == (size * scale) * one,
            lsb > 0,
            scale > 0,
            size >= 0,
            one > 0,
    ;
    let low = (4 * count - 1) * quarter;
    let high = (4 * count + 1) * quarter;
    assert(low >= 0 && high >= 0) by (nonlinear_arith)
        requires
            low == (4 * count - 1) * quarter,
            high == (4 * count + 1) * quarter,
            count > 0,
            quarter > 0,
    ;
    let factor = quarter * scale;
    lemma_regroup(4 * count - 1, quarter, lsb as int, scale as int);
    lemma_regroup((4 * count + 1) as int, quarter, lsb as int, scale as int);
    lemma_regroup(size as int, scale as int, 4, quarter);
    assert(factor > 0 && scale * quarter == factor && size * 4 == 4 * size) by (nonlinear_arith)
        requires
            factor == quarter * scale,
            quarter > 0,
            scale > 0,
    ;
    assert(low * den <= num && num <= high * den) by (nonlinear_arith)
        requires
            low * den == ((4 * count - 1) * lsb) * factor,
            high * den == ((4 * count + 1) * lsb) * factor,
            num == (4 * size) * factor,
            (4 * count - 1) * lsb <= 4 * size <= (4 * count + 1) * lsb,
            factor > 0,
    ;
    crate::rounding::few_bits_are_exact((4 * count - 1) as nat, 1072, 52, 2047);
    crate::rounding::few_bits_are_exact((4 * count + 1) as nat, 1072, 52, 2047);
    lemma_whole_fraction(low as nat, den as nat, 52, limit);
    lemma_whole_fraction(high as nat, den as nat, 52, limit);
    assert(0 <= low * den) by (nonlinear_arith)
        requires
            low >= 0,
            den > 0,
    ;
    crate::rounding::rounding_is_monotonic((low * den) as nat, num as nat, den as nat, 52, limit);
    crate::rounding::rounding_is_monotonic(num as nat, (high * den) as nat, den as nat, 52, limit);
    let below = crate::rounding::rounded(low as nat, 1, 52, limit);
    let above = crate::rounding::rounded(high as nat, 1, 52, limit);
    let pattern = Binary64::rounded(num as nat, den as nat);
    assert(below <= pattern <= above < INFINITY_64);
    if below < pattern {
        crate::rounding::magnitude_is_monotonic(below, pattern, 52);
    }
    if pattern < above {
        crate::rounding::magnitude_is_monotonic(pattern, above, 52);
    }
    let q = crate::rounding::magnitude(pattern, 52) as int;
    assert(low <= q <= high);
    let rest = 2 * q + one - (2 * one) * count;
    assert(0 <= rest < 2 * one) by (nonlinear_arith)
        requires
            rest == 2 * q + one - (2 * one) * count,
            one == 4 * quarter,
            (4 * count - 1) * quarter <= q <= (4 * count + 1) * quarter,
            quarter > 0,
    ;
    assert(2 * q + one == count * (2 * one) + rest) by (nonlinear_arith)
        requires
            rest == 2 * q + one - (2 * one) * count,
    ;
    vstd::arithmetic::div_mod::lemma_fundamental_div_mod_converse(2 * q + one, 2 * one, count as int, rest);
}

/// A 16-bit count, scaled by a binary32 number and divided by it in binary64, comes back as the
/// nearest integer. The number must be neither so small that it has lost bits, nor so large that
/// the product is infinite.
pub proof fn scaling_is_undone(count: i16, lsb: Binary32)
    requires
        0x80_0000 <= lsb.bits < 0x7800_0000,
    ensures
        ({
            let value = Binary32::of_integer(count as int).product(lsb).widened();
            &&& value.is_finite()
            &&& lsb.widened().is_positive()
            &&& value.quotient(lsb.widened()).is_finite()
            &&& value.quotient(lsb.widened()).nearest() == count
        }),
{
    crate::rounding::zero_has_no_magnitude(lsb.pattern(), 23);
    lemma_scaled_integer(count, lsb);
    let l = lsb.size() as int;
    let exact = count * l;
    assert(-0x8000 * l <= exact <= 0x8000 * l) by (nonlinear_arith)
        requires
            exact == count * l,
            -0x8000 <= count <= 0x8000,
            l >= 0,
    ;
    lemma_count_of_steps(Binary32::of_integer(count as int).product(lsb), count, lsb);
}

/// A whole number of units that is not too large is rounded to a finite number close to it.
proof fn lemma_rounded_whole(exact: nat)
    requires
        exact <= crate::rounding::power(250),
    ensures
        Binary32::rounded(exact, 1) < INFINITY_32,
        is_close(crate::rounding::magnitude(Binary32::rounded(exact, 1), 23) as int, exact as int),
{
    lemma_formats();
    vstd::arithmetic::power2::lemma2_to64();
    crate::rounding::few_bits_are_exact(1, 250, 23, 255);
    assert(1 * crate::rounding::power(250) == crate::rounding::power(250));
    crate::rounding::rounding_is_monotonic(exact, crate::rounding::power(250), 1, 23, INFINITY_32 as nat);
    crate::rounding::rounding_exists(exact, 1, 23);
    let pattern = Binary32::rounded(exact, 1);
    assert(crate::rounding::rounds_to(pattern, exact, 1, 23));
    if pattern >= 0x80_0000 {
        crate::rounding::rounding_is_close(pattern, exact, 1, 23);
    } else {
        assert(crate::rounding::magnitude(pattern, 23) == pattern);
        assert(crate::rounding::magnitude(pattern + 1, 23) == pattern + 1) by {
            if pattern + 1 == 0x80_0000 {
                assert((0x80_0000 + 0) * crate::rounding::power(0) == 0x80_0000) by (nonlinear_arith)
                    requires
                        crate::rounding::power(0) == 1,
                ;
            }
        }
        if pattern > 0 {
            assert(crate::rounding::magnitude((pattern - 1) as nat, 23) == pattern - 1);
        }
        assert(exact == pattern);
    }
}

/// The sum of two finite numbers that is not too large is finite, and close to the exact one.
proof fn lemma_sum_is_close(first: Binary32, second: Binary32)
    requires
        first.is_finite(),
        second.is_finite(),
        -crate::rounding::power(250) <= first.units() + second.units() <= crate::rounding::power(250),
    ensures
        first.sum(second).is_finite(),
        is_close(first.sum(second).units(), first.units() + second.units()),
{
    let exact = first.units() + second.units();
    crate::rounding::zero_has_no_magnitude(0, 23);
    if exact < 0 {
        lemma_rounded_whole((-exact) as nat);
    } else if exact > 0 {
        lemma_rounded_whole(exact as nat);
    }
}

/// A count, scaled, moved by an offset and back, is a quarter of a step away from the exact
/// product, at most.
proof fn lemma_moved_back(count: i16, lsb: Binary32, offset: Binary32)
    requires
        0x80_0000 <= lsb.bits < 0x6800_0000,
        offset.is_positive(),
        offset.size() <= 0x2000 * lsb.size(),
    ensures
        ({
            let back = Binary32::of_integer(count as int).product(lsb).sum(offset.opposite()).sum(offset);
            let l = lsb.size() as int;
            &&& back.is_finite()
            &&& -l <= 4 * (back.units() - count * l) <= l
            &&& count == 0 ==> back.units() == 0
        }),
{
    let scaled = Binary32::of_integer(count as int).product(lsb);
    let moved = scaled.sum(offset.opposite());
    let back = moved.sum(offset);
    let l = lsb.size() as int;
    let exact = count * l;
    assert(offset.opposite().units() == -offset.units());
    assert(-0x8000 * l <= exact <= 0x8000 * l) by (nonlinear_arith)
        requires
            exact == count * l,
            -0x8000 <= count <= 0x8000,
            l >= 0,
    ;
    lemma_lsb_is_small(lsb);
    lemma_scaled_integer(count, lsb);
    assert(-0x1_0000 * l <= scaled.units() <= 0x1_0000 * l);
    lemma_sum_is_close(scaled, offset.opposite());
    assert(-0x4_0000 * l <= moved.units() <= 0x4_0000 * l);
    lemma_sum_is_close(moved, offset);
    assert(-l <= 4 * (back.units() - exact) <= l);
    if count == 0 {
        // Nothing is lost: the offset is taken away from nothing and added again.
        crate::rounding::zero_has_no_magnitude(0, 23);
        crate::rounding::representable_is_exact(offset.pattern(), 23, INFINITY_32 as nat);
        assert(moved.units() == -offset.units());
    }
}

/// A finite number that is a quarter of a step away from a count of them, at most, has that count
/// as the nearest integer to its quotient by the step in binary64.
proof fn lemma_count_of_steps(number: Binary32, count: i16, lsb: Binary32)
    requires
        number.is_finite(),
        lsb.is_positive(),
        -lsb.size() <= 4 * (number.units() - count * lsb.size()) <= lsb.size(),
        count == 0 ==> number.units() == 0,
    ensures
        number.widened().is_finite(),
        lsb.widened().is_positive(),
        number.widened().quotient(lsb.widened()).is_finite(),
        number.widened().quotient(lsb.widened()).nearest() == count,
{
    vstd::arithmetic::power2::lemma_pow2_pos(925);
    vstd::arithmetic::power2::lemma_pow2_pos(1074);
    let scale = crate::rounding::power(925);
    let one = crate::rounding::power(1074);
    let value = number.widened();
    let divisor = lsb.widened();
    let l = lsb.size() as int;
    let p = number.size();
    widening_is_exact(lsb);
    widening_is_exact(number);
    assert((-(p as int)) * scale == -(p * scale)) by (nonlinear_arith);
    assert(value.size() == p * scale && divisor.size() == lsb.size() * scale);
    assert(lsb.size() * scale > 0) by (nonlinear_arith)
        requires
            lsb.size() > 0,
            scale > 0,
    ;
    crate::rounding::zero_has_no_magnitude(value.pattern(), 52);
    crate::rounding::zero_has_no_magnitude(divisor.pattern(), 52);
    if count == 0 {
        assert(p == 0);
        assert(0 * scale == 0 && 0 * one == 0);
        crate::rounding::nothing_rounds_to_zero(divisor.size(), 52, INFINITY_64 as nat);
        crate::rounding::zero_has_no_magnitude(0, 52);
        vstd::arithmetic::div_mod::lemma_basic_div(one as int, 2 * one as int);
    } else {
        let size: nat = if count < 0 {
            (-count) as nat
        } else {
            count as nat
        };
        let exact = size * l;
        assert(count < 0 ==> count * l == -exact) by (nonlinear_arith)
            requires
                exact == size * l,
                count < 0 ==> size == -count,
        ;
        assert(exact >= l) by (nonlinear_arith)
            requires
                exact == size * l,
                size >= 1,
                l >= 0,
        ;
        assert((4 * size - 1) * l == 4 * exact - l && (4 * size + 1) * l == 4 * exact + l) by (nonlinear_arith)
            requires
                exact == size * l,
        ;
        assert(number.is_negative() == (count < 0));
        assert(p * scale > 0) by (nonlinear_arith)
            requires
                p > 0,
                scale > 0,
        ;
        lemma_nearest_of_quotient(p, size, lsb.size(), scale);
    }
}

/// A 16-bit count, scaled by a binary32 number, moved by an offset and back, and divided by the
/// number in binary64, comes back as the nearest integer. The number must be neither so small
/// that it has lost bits, nor so large that a sum is infinite, and the offset at most 2^13 of it.
pub proof fn offset_is_undone(count: i16, lsb: Binary32, offset: Binary32)
    requires
        0x80_0000 <= lsb.bits < 0x6800_0000,
        offset.is_positive(),
        offset.size() <= 0x2000 * lsb.size(),
    ensures
        ({
            let scaled = Binary32::of_integer(count as int).product(lsb);
            let value = scaled.sum(offset.opposite()).sum(offset).widened();
            &&& value.is_finite()
            &&& lsb.widened().is_positive()
            &&& value.quotient(lsb.widened()).is_finite()
            &&& value.quotient(lsb.widened()).nearest() == count
        }),
{
    let scaled = Binary32::of_integer(count as int).product(lsb);
    crate::rounding::zero_has_no_magnitude(lsb.pattern(), 23);
    lemma_moved_back(count, lsb, offset);
    lemma_count_of_steps(scaled.sum(offset.opposite()).sum(offset), count, lsb);
}

/// The sizes of a number of which sums of many stay finite.
proof fn lemma_lsb_is_small(lsb: Binary32)
    requires
        0x80_0000 <= lsb.bits < 0x6800_0000,
    ensures
        0x8_0000 * lsb.size() <= crate::rounding::power(250),
{
    vstd::arithmetic::power2::lemma2_to64();
    let x = (lsb.bits as int) / 0x80_0000 - 1;
    let significand = 0x80_0000 + (lsb.bits as int) % 0x80_0000;
    let px = crate::rounding::power(x as nat) as int;
    assert(lsb.size() == significand * px);
    vstd::arithmetic::power2::lemma2_to64_rest();
    vstd::arithmetic::power2::lemma_pow2_adds(x as nat, 43);
    crate::rounding::lemma_power_grows((x + 43) as nat, 250);
    assert(0x8_0000 * (significand * px) <= px * 0x800_0000_0000) by (nonlinear_arith)
        requires
            significand < 0x100_0000,
            px >= 0,
    ;
}

/// A count times a number that is neither very small nor very large is finite and close to the
/// exact product.
proof fn lemma_scaled_integer(count: i16, lsb: Binary32)
    requires
        0x80_0000 <= lsb.bits < 0x7800_0000,
    ensures
        Binary32::of_integer(count as int).product(lsb).is_finite(),
        is_close(Binary32::of_integer(count as int).product(lsb).units(), count * lsb.size()),
{
    lemma_formats();
    vstd::arithmetic::power2::lemma2_to64();
    vstd::arithmetic::power2::lemma_pow2_pos(149);
    let unit = crate::rounding::power(149);
    let size: nat = if count < 0 {
        (-count) as nat
    } else {
        count as nat
    };
    let l = lsb.size() as int;
    assert(count < 0 ==> count * l == -(size * l)) by (nonlinear_arith)
        requires
            count < 0 ==> size == -count,
    ;
    if size == 0 {
        crate::rounding::nothing_rounds_to_zero(1, 23, INFINITY_32 as nat);
        crate::rounding::nothing_rounds_to_zero(unit, 23, INFINITY_32 as nat);
        crate::rounding::zero_has_no_magnitude(0, 23);
        assert(0 * unit == 0 && 0 * lsb.size() == 0);
    } else {
        crate::rounding::few_bits_are_exact(size, 149, 23, 255);
        lemma_scaled_count(size, lsb);
    }
}

} // verus!
