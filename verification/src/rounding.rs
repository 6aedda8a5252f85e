//! Rounding of exact magnitudes to floating-point patterns.
//!
//! A floating-point magnitude is an exponent and `k` fraction bits, held as one pattern. The
//! exact result of an operation is a fraction `num / den`, in units of the smallest positive
//! magnitude; it is rounded to the nearest pattern, and halfway between two to the even one.
use vstd::prelude::*;

verus! {

/// Two to the power of `e`.
pub open spec fn power(e: nat) -> nat {
    vstd::arithmetic::power2::pow2(e)
}

/// The magnitude whose pattern, of an exponent and `k` fraction bits, is `pattern`, in units
/// of the smallest positive one.
///
/// An exponent of zero stands for the fraction itself; each further exponent doubles the
/// distance between neighbours.
pub open spec fn magnitude(pattern: nat, k: nat) -> nat {
    let exponent = pattern / power(k);
    let fraction = pattern % power(k);
    if exponent == 0 {
        fraction
    } else {
        (power(k) + fraction) * power((exponent - 1) as nat)
    }
}

/// Whether `pattern` is the one that `num / den` is rounded to: the fraction lies between the
/// midpoints to the neighbours of the pattern, and on a midpoint only if the pattern is even.
pub open spec fn rounds_to(pattern: nat, num: nat, den: nat, k: nat) -> bool {
    let below = if pattern == 0 {
        0
    } else {
        magnitude((pattern - 1) as nat, k) + magnitude(pattern, k)
    };
    let above = magnitude(pattern, k) + magnitude(pattern + 1, k);
    &&& below * den <= 2 * num <= above * den
    &&& below * den == 2 * num ==> pattern % 2 == 0
    &&& above * den == 2 * num ==> pattern % 2 == 0
}

/// The pattern that `num / den` is rounded to, where everything from `limit` on is `limit`.
pub open spec fn rounded(num: nat, den: nat, k: nat, limit: nat) -> nat {
    let pattern = choose|pattern: nat| rounds_to(pattern, num, den, k);
    if pattern < limit {
        pattern
    } else {
        limit
    }
}

/// Patterns order magnitudes.
pub proof fn magnitude_is_monotonic(small: nat, large: nat, k: nat)
    requires
        small < large,
    ensures
        magnitude(small, k) < magnitude(large, k),
{
    let one = power(k) as int;
    vstd::arithmetic::power2::lemma_pow2_pos(k);
    let e1 = small as int / one;
    let e2 = large as int / one;
    let f1 = small as int % one;
    let f2 = large as int % one;
    vstd::arithmetic::div_mod::lemma_fundamental_div_mod(small as int, one);
    vstd::arithmetic::div_mod::lemma_fundamental_div_mod(large as int, one);
    vstd::arithmetic::div_mod::lemma_div_is_ordered(small as int, large as int, one);
    vstd::arithmetic::div_mod::lemma_mod_bound(small as int, one);
    vstd::arithmetic::div_mod::lemma_mod_bound(large as int, one);
    if e1 == e2 {
        if e1 > 0 {
            let step = power((e1 - 1) as nat) as int;
            vstd::arithmetic::power2::lemma_pow2_pos((e1 - 1) as nat);
            assert((one + f1) * step < (one + f2) * step) by (nonlinear_arith)
                requires
                    f1 < f2,
                    step > 0,
            ;
        }
    } else {
        let high = power((e2 - 1) as nat) as int;
        vstd::arithmetic::power2::lemma_pow2_pos((e2 - 1) as nat);
        assert(one * high <= (one + f2) * high) by (nonlinear_arith)
            requires
                f2 >= 0,
                high > 0,
        ;
        if e1 == 0 {
            assert(one <= one * high) by (nonlinear_arith)
                requires
                    one > 0,
                    high >= 1,
            ;
        } else {
            let low = power((e1 - 1) as nat) as int;
            vstd::arithmetic::power2::lemma_pow2_unfold(e1 as nat);
            if e1 < e2 - 1 {
                vstd::arithmetic::power2::lemma_pow2_strictly_increases(e1 as nat, (e2 - 1) as nat);
            }
            vstd::arithmetic::power2::lemma_pow2_pos((e1 - 1) as nat);
            assert((one + f1) * low < one * high) by (nonlinear_arith)
                requires
                    f1 < one,
                    one > 0,
                    low > 0,
                    2 * low <= high,
            ;
        }
    }
}

/// Only the pattern zero has no magnitude.
pub proof fn zero_has_no_magnitude(pattern: nat, k: nat)
    ensures
        magnitude(pattern, k) == 0 <==> pattern == 0,
{
    let one = power(k) as int;
    vstd::arithmetic::power2::lemma_pow2_pos(k);
    vstd::arithmetic::div_mod::lemma_small_mod(0, one as nat);
    vstd::arithmetic::div_mod::lemma_basic_div(0, one);
    if pattern > 0 {
        magnitude_is_monotonic(0, pattern, k);
    }
}

/// A fraction is rounded to one pattern only.
pub proof fn rounding_is_unique(first: nat, second: nat, num: nat, den: nat, k: nat)
    requires
        den > 0,
        rounds_to(first, num, den, k),
        rounds_to(second, num, den, k),
    ensures
        first == second,
{
    if first < second {
        lemma_midpoints_are_ordered(first, second, num, den, k);
    } else if second < first {
        lemma_midpoints_are_ordered(second, first, num, den, k);
    }
}

/// A fraction that is rounded to one pattern is not rounded to a larger one.
proof fn lemma_midpoints_are_ordered(first: nat, second: nat, num: nat, den: nat, k: nat)
    requires
        den > 0,
        first < second,
        rounds_to(first, num, den, k),
    ensures
        !rounds_to(second, num, den, k),
{
    let above = (magnitude(first, k) + magnitude(first + 1, k)) as int;
    let below = (magnitude((second - 1) as nat, k) + magnitude(second, k)) as int;
    if first + 1 < second {
        magnitude_is_monotonic(first, (second - 1) as nat, k);
        magnitude_is_monotonic(first + 1, second, k);
        assert(above * den < below * den) by (nonlinear_arith)
            requires
                above < below,
                den > 0,
        ;
    }
}

/// Rounding depends on the fraction alone, not on how it is written.
proof fn lemma_same_fraction(pattern: nat, num1: nat, den1: nat, num2: nat, den2: nat, k: nat)
    requires
        den1 > 0,
        den2 > 0,
        num1 * den2 == num2 * den1,
        rounds_to(pattern, num1, den1, k),
    ensures
        rounds_to(pattern, num2, den2, k),
{
    let below = if pattern == 0 {
        0
    } else {
        (magnitude((pattern - 1) as nat, k) + magnitude(pattern, k)) as int
    };
    let above = (magnitude(pattern, k) + magnitude(pattern + 1, k)) as int;
    lemma_same_bound(below, num1 as int, den1 as int, num2 as int, den2 as int);
    lemma_same_bound(above, num1 as int, den1 as int, num2 as int, den2 as int);
}

proof fn lemma_same_bound(bound: int, num1: int, den1: int, num2: int, den2: int)
    requires
        den1 > 0,
        den2 > 0,
        num1 * den2 == num2 * den1,
    ensures
        bound * den1 <= 2 * num1 <==> bound * den2 <= 2 * num2,
        bound * den1 >= 2 * num1 <==> bound * den2 >= 2 * num2,
{
    let gap1 = bound * den1 - 2 * num1;
    let gap2 = bound * den2 - 2 * num2;
    assert(gap1 * den2 == gap2 * den1) by (nonlinear_arith)
        requires
            gap1 == bound * den1 - 2 * num1,
            gap2 == bound * den2 - 2 * num2,
            num1 * den2 == num2 * den1,
    ;
    if gap1 > 0 {
        assert(gap2 > 0) by (nonlinear_arith)
            requires
                gap1 * den2 == gap2 * den1,
                gap1 > 0,
                den1 > 0,
                den2 > 0,
        ;
    } else if gap1 < 0 {
        assert(gap2 < 0) by (nonlinear_arith)
            requires
                gap1 * den2 == gap2 * den1,
                gap1 < 0,
                den1 > 0,
                den2 > 0,
        ;
    } else {
        assert(gap2 == 0) by (nonlinear_arith)
            requires
                gap1 * den2 == gap2 * den1,
                gap1 == 0,
                den1 > 0,
        ;
    }
}

/// A fraction that is rounded to `pattern` is rounded to it, up to `limit`.
proof fn lemma_rounded_is(pattern: nat, num: nat, den: nat, k: nat, limit: nat)
    requires
        den > 0,
        rounds_to(pattern, num, den, k),
    ensures
        rounded(num, den, k, limit) == (if pattern < limit {
            pattern
        } else {
            limit
        }),
{
    let chosen = choose|pattern: nat| rounds_to(pattern, num, den, k);
    rounding_is_unique(pattern, chosen, num, den, k);
}

/// Equal fractions are rounded to the same pattern.
pub proof fn equal_fractions_round_alike(num1: nat, den1: nat, num2: nat, den2: nat, k: nat, limit: nat)
    requires
        den1 > 0,
        den2 > 0,
        num1 * den2 == num2 * den1,
        exists|pattern: nat| rounds_to(pattern, num1, den1, k),
    ensures
        rounded(num1, den1, k, limit) == rounded(num2, den2, k, limit),
{
    let pattern = choose|pattern: nat| rounds_to(pattern, num1, den1, k);
    lemma_same_fraction(pattern, num1, den1, num2, den2, k);
    lemma_rounded_is(pattern, num1, den1, k, limit);
    lemma_rounded_is(pattern, num2, den2, k, limit);
}

/// A magnitude that has a pattern is rounded to it.
pub proof fn representable_is_exact(pattern: nat, k: nat, limit: nat)
    requires
        pattern < limit,
    ensures
        rounded(magnitude(pattern, k), 1, k, limit) == pattern,
{
    magnitude_is_monotonic(pattern, pattern + 1, k);
    if pattern > 0 {
        magnitude_is_monotonic((pattern - 1) as nat, pattern, k);
    } else {
        zero_has_no_magnitude(0, k);
    }
    lemma_rounded_is(pattern, magnitude(pattern, k), 1, k, limit);
}

/// Nothing is rounded to the pattern zero.
pub proof fn nothing_rounds_to_zero(den: nat, k: nat, limit: nat)
    requires
        den > 0,
        limit > 0,
    ensures
        rounded(0, den, k, limit) == 0,
{
    zero_has_no_magnitude(0, k);
    zero_has_no_magnitude(1, k);
    let above = (magnitude(0, k) + magnitude(1, k)) as int;
    assert(above * den > 0) by (nonlinear_arith)
        requires
            above > 0,
            den > 0,
    ;
    lemma_rounded_is(0, 0, den, k, limit);
}

/// The pattern at which a binade of step `2^t` holds `m` steps.
proof fn lemma_magnitude_of_steps(t: nat, m: nat, k: nat)
    requires
        m <= 2 * power(k),
        t > 0 ==> m >= power(k),
    ensures
        magnitude(t * power(k) + m, k) == m * power(t),
{
    let one = power(k) as int;
    let step = power(t) as int;
    let pattern = t * one + m;
    vstd::arithmetic::power2::lemma_pow2_pos(k);
    assert(power(0) == 1) by {
        vstd::arithmetic::power2::lemma2_to64();
    }
    assert(t * one >= 0) by (nonlinear_arith)
        requires
            t >= 0,
            one > 0,
    ;
    if m == 2 * one {
        assert(pattern == (t + 2) * one) by (nonlinear_arith)
            requires
                pattern == t * one + 2 * one,
        ;
        vstd::arithmetic::div_mod::lemma_fundamental_div_mod_converse(pattern, one, t as int + 2, 0);
        vstd::arithmetic::power2::lemma_pow2_unfold(t + 1);
        assert((one + 0) * (2 * step) == (2 * one) * step) by (nonlinear_arith);
    } else if m >= one {
        assert(pattern == (t + 1) * one + (m - one)) by (nonlinear_arith)
            requires
                pattern == t * one + m,
        ;
        vstd::arithmetic::div_mod::lemma_fundamental_div_mod_converse(pattern, one, t as int + 1, m - one);
    } else {
        vstd::arithmetic::div_mod::lemma_fundamental_div_mod_converse(pattern, one, 0, m as int);
    }
}

/// `m` steps of `2^t` are what a fraction between `m - 1/2` and `m + 1/2` steps is rounded to.
proof fn lemma_rounds_to_steps(t: nat, m: nat, num: nat, den: nat, k: nat)
    requires
        k > 0,
        den > 0,
        m <= 2 * power(k),
        t > 0 ==> m >= power(k),
        (2 * m - 1) * (den * power(t)) <= 2 * num <= (2 * m + 1) * (den * power(t)),
        (2 * m - 1) * (den * power(t)) == 2 * num ==> m % 2 == 0,
        (2 * m + 1) * (den * power(t)) == 2 * num ==> m % 2 == 0,
        t > 0 && m == power(k) ==> m * (den * power(t)) <= num,
        m == 2 * power(k) ==> num < m * (den * power(t)),
    ensures
        rounds_to(t * power(k) + m, num, den, k),
{
    let one = power(k) as int;
    let step = power(t) as int;
    let pattern = (t * power(k) + m) as nat;
    let d = den as int;
    vstd::arithmetic::power2::lemma_pow2_pos(k);
    vstd::arithmetic::power2::lemma_pow2_pos(t);
    vstd::arithmetic::power2::lemma_pow2_unfold(k);
    let half = power((k - 1) as nat) as int;
    assert(pattern == m + 2 * (t * half)) by (nonlinear_arith)
        requires
            pattern == t * one + m,
            one == 2 * half,
    ;
    assert(pattern % 2 == m % 2);
    lemma_magnitude_of_steps(t, m, k);
    assert(t * one >= 0) by (nonlinear_arith)
        requires
            t >= 0,
            one > 0,
    ;
    // Above the pattern.
    if m < 2 * one {
        lemma_magnitude_of_steps(t, m + 1, k);
        assert((m * step + (m + 1) * step) * d == (2 * m + 1) * (d * step)) by (nonlinear_arith);
    } else {
        let next = magnitude(pattern + 1, k) as int;
        magnitude_is_monotonic(pattern, pattern + 1, k);
        assert((m * step + next) * d > 2 * num) by (nonlinear_arith)
            requires
                next > m * step,
                d > 0,
                num < m * (d * step),
        ;
    }
    // Below the pattern.
    if pattern > 0 {
        if m > 0 && (t == 0 || m > one) {
            lemma_magnitude_of_steps(t, (m - 1) as nat, k);
            assert(((m - 1) * step + m * step) * d == (2 * m - 1) * (d * step)) by (nonlinear_arith);
        } else {
            let previous = magnitude((pattern - 1) as nat, k) as int;
            magnitude_is_monotonic((pattern - 1) as nat, pattern, k);
            assert((previous + m * step) * d < 2 * num) by (nonlinear_arith)
                requires
                    previous < m * step,
                    d > 0,
                    m * (d * step) <= num,
            ;
        }
    }
}

/// Two to the power of `exponent`.
pub fn power_of_two(exponent: u64) -> (value: u128)
    requires
        exponent <= 127,
    ensures
        value == power(exponent as nat),
        0 < value,
{
    let mut value: u128 = 1;
    let mut i: u64 = 0;
    proof {
        vstd::arithmetic::power2::lemma2_to64();
        lemma_power_127();
    }
    while i < exponent
        invariant
            i <= exponent <= 127,
            value == power(i as nat),
        decreases exponent - i,
    {
        proof {
            vstd::arithmetic::power2::lemma_pow2_unfold((i + 1) as nat);
            lemma_power_127();
            lemma_power_grows((i + 1) as nat, 127);
        }
        value = value * 2;
        i = i + 1;
    }
    proof {
        vstd::arithmetic::power2::lemma_pow2_pos(exponent as nat);
    }
    value
}

pub proof fn lemma_power_127()
    ensures
        power(127) == 0x8000_0000_0000_0000_0000_0000_0000_0000,
{
    vstd::arithmetic::power2::lemma2_to64();
    vstd::arithmetic::power2::lemma2_to64_rest();
    vstd::arithmetic::power2::lemma_pow2_adds(64, 63);
}

pub proof fn lemma_power_grows(small: nat, large: nat)
    requires
        small <= large,
    ensures
        0 < power(small) <= power(large),
{
    vstd::arithmetic::power2::lemma_pow2_pos(small);
    if small < large {
        vstd::arithmetic::power2::lemma_pow2_strictly_increases(small, large);
    }
}

/// The number of bits of `value`.
pub fn bit_length(value: u128) -> (length: u64)
    requires
        0 < value < 0x8000_0000_0000_0000_0000_0000_0000_0000,
    ensures
        0 < length <= 127,
        power((length - 1) as nat) <= value < power(length as nat),
{
    let mut length: u64 = 0;
    let mut above: u128 = 1;
    proof {
        vstd::arithmetic::power2::lemma2_to64();
    }
    while above <= value
        invariant
            value < 0x8000_0000_0000_0000_0000_0000_0000_0000,
            length <= 127,
            above == power(length as nat),
            length > 0 ==> power((length - 1) as nat) <= value,
            length == 0 ==> above <= value,
        decreases 127 - length,
    {
        proof {
            lemma_power_127();
            if length >= 127 {
                lemma_power_grows(127, length as nat);
            }
            vstd::arithmetic::power2::lemma_pow2_unfold((length + 1) as nat);
        }
        above = above * 2;
        length = length + 1;
    }
    length
}

/// `num * 2^e`, or `num` for a negative `e`.
pub open spec fn scaled_num(num: nat, e: int) -> nat {
    if e >= 0 {
        num * power(e as nat)
    } else {
        num
    }
}

/// `den * 2^-e` for a negative `e`, or `den`.
pub open spec fn scaled_den(den: nat, e: int) -> nat {
    if e >= 0 {
        den
    } else {
        den * power((-e) as nat)
    }
}

/// Rounding the quotient `q` of `num / den`, divided by the even number `d`, to the nearest
/// integer, and to the even one halfway between two.
proof fn lemma_round_quotient(num: int, den: int, q: int, d: int, m: int)
    requires
        den > 0,
        q == num / den,
        num >= 0,
        d > 0,
        d % 2 == 0,
        m == (if q % d > d / 2 || (q % d == d / 2 && (num % den != 0 || (q / d) % 2 == 1)) {
            q / d + 1
        } else {
            q / d
        }),
    ensures
        (2 * m - 1) * (den * d) <= 2 * num <= (2 * m + 1) * (den * d),
        (2 * m - 1) * (den * d) == 2 * num ==> m % 2 == 0,
        (2 * m + 1) * (den * d) == 2 * num ==> m % 2 == 0,
        (q / d) * (den * d) <= num < (q / d + 1) * (den * d),
{
    let s = num % den;
    let h = q / d;
    let rem = q % d;
    let half = d / 2;
    vstd::arithmetic::div_mod::lemma_fundamental_div_mod(num, den);
    vstd::arithmetic::div_mod::lemma_mod_bound(num, den);
    vstd::arithmetic::div_mod::lemma_fundamental_div_mod(q, d);
    vstd::arithmetic::div_mod::lemma_mod_bound(q, d);
    let whole = h * (den * d);
    assert(num == whole + rem * den + s) by (nonlinear_arith)
        requires
            num == den * q + s,
            q == d * h + rem,
            whole == h * (den * d),
    ;
    assert((2 * h + 1) * (den * d) == 2 * whole + den * d) by (nonlinear_arith)
        requires
            whole == h * (den * d),
    ;
    assert((2 * h - 1) * (den * d) == 2 * whole - den * d) by (nonlinear_arith)
        requires
            whole == h * (den * d),
    ;
    assert((2 * h + 3) * (den * d) == 2 * whole + 3 * (den * d)) by (nonlinear_arith)
        requires
            whole == h * (den * d),
    ;
    assert((h + 1) * (den * d) == whole + den * d) by (nonlinear_arith)
        requires
            whole == h * (den * d),
    ;
    assert(den * d == 2 * (half * den)) by (nonlinear_arith)
        requires
            d == 2 * half,
    ;
    assert(den * d > 0) by (nonlinear_arith)
        requires
            den > 0,
            d > 0,
    ;
    assert(0 <= rem * den && rem * den + den <= den * d) by (nonlinear_arith)
        requires
            0 <= rem <= d - 1,
            den > 0,
    ;
    if rem < half {
        assert(rem * den + den <= half * den) by (nonlinear_arith)
            requires
                rem + 1 <= half,
                den > 0,
        ;
    } else if rem > half {
        assert(rem * den >= half * den + den) by (nonlinear_arith)
            requires
                rem >= half + 1,
                den > 0,
        ;
    }
}

/// Bounds stay bounds when both sides are multiplied.
proof fn lemma_scale(bound: int, width: int, num: int, factor: int)
    requires
        factor > 0,
    ensures
        bound * width <= num <==> bound * (width * factor) <= num * factor,
        bound * width >= num <==> bound * (width * factor) >= num * factor,
{
    let gap = bound * width - num;
    assert(bound * (width * factor) - num * factor == gap * factor) by (nonlinear_arith)
        requires
            gap == bound * width - num,
    ;
    if gap > 0 {
        assert(gap * factor > 0) by (nonlinear_arith)
            requires
                gap > 0,
                factor > 0,
        ;
    } else if gap < 0 {
        assert(gap * factor < 0) by (nonlinear_arith)
            requires
                gap < 0,
                factor > 0,
        ;
    } else {
        assert(gap * factor == 0) by (nonlinear_arith)
            requires
                gap == 0,
        ;
    }
}

/// How far the width `den * 2^r` and the numerator have to be scaled to stand over steps of
/// `2^t`, where `r + e == t`.
proof fn lemma_step_width(num: nat, den: nat, e: int, t: nat, r: nat) -> (factor: int)
    requires
        r + e == t,
    ensures
        factor > 0,
        scaled_den(den, e) * power(t) == (den * power(r)) * factor,
        scaled_num(num, e) == num * factor,
{
    if e >= 0 {
        vstd::arithmetic::power2::lemma_pow2_adds(r, e as nat);
        vstd::arithmetic::power2::lemma_pow2_pos(e as nat);
        let a = power(r) as int;
        let b = power(e as nat) as int;
        assert(den * (a * b) == (den * a) * b) by (nonlinear_arith);
        b
    } else {
        vstd::arithmetic::power2::lemma_pow2_adds((-e) as nat, t);
        let a = power((-e) as nat) as int;
        let b = power(t) as int;
        assert((den * a) * b == den * (a * b)) by (nonlinear_arith);
        1
    }
}

/// The integer that `q / 2^r` is rounded to, for the quotient `q` of a fraction that leaves a
/// remainder if `inexact`.
spec fn rounded_shift(q: int, inexact: bool, d: int) -> int {
    if q % d > d / 2 || (q % d == d / 2 && (inexact || (q / d) % 2 == 1)) {
        q / d + 1
    } else {
        q / d
    }
}

/// Rounding away `r` bits of the quotient of `num / den` gives the steps of `2^t` that the
/// fraction, scaled by `2^e`, is rounded to.
proof fn lemma_round_down_bits(num: nat, den: nat, e: int, k: nat, length: nat, t: nat, r: nat, m: nat)
    requires
        k > 0,
        den > 0,
        length > 0,
        power((length - 1) as nat) <= num / den < power(length),
        t == (if length + e > k + 1 {
            length + e - k - 1
        } else {
            0
        }),
        r + e == t,
        r > 0,
        m == rounded_shift((num / den) as int, num % den != 0, power(r) as int),
    ensures
        m <= 2 * power(k),
        rounds_to(t * power(k) + m, scaled_num(num, e), scaled_den(den, e), k),
{
    let q = (num / den) as int;
    let d = power(r) as int;
    let h = q / d;
    let width = (den * power(r)) as int;
    vstd::arithmetic::power2::lemma_pow2_unfold(r);
    vstd::arithmetic::power2::lemma_pow2_pos((r - 1) as nat);
    vstd::arithmetic::power2::lemma_pow2_unfold(k + 1);
    vstd::arithmetic::power2::lemma_pow2_pos(k);
    lemma_round_quotient(num as int, den as int, q, d, m as int);
    // The quotient without its low bits lies in the binade.
    lemma_quotient_of_powers(q, length, r, k, t);
    let factor = lemma_step_width(num, den, e, t, r);
    let n = scaled_num(num, e) as int;
    let step_width = (scaled_den(den, e) * power(t)) as int;
    lemma_scale(2 * m as int - 1, width, 2 * num as int, factor);
    lemma_scale(2 * m as int + 1, width, 2 * num as int, factor);
    lemma_scale(h, width, num as int, factor);
    lemma_scale(h + 1, width, num as int, factor);
    assert((2 * num) * factor == 2 * (num * factor)) by (nonlinear_arith);
    if e < 0 {
        vstd::arithmetic::power2::lemma_pow2_pos((-e) as nat);
        assert(den * power((-e) as nat) > 0) by (nonlinear_arith)
            requires
                den > 0,
                power((-e) as nat) > 0,
        ;
    }
    if m == 2 * power(k) {
        assert((h + 1) * step_width <= m * step_width) by (nonlinear_arith)
            requires
                h + 1 <= m,
                step_width >= 0,
        ;
    }
    lemma_rounds_to_steps(t, m, n as nat, scaled_den(den, e), k);
}

/// Dropping `r` of `length` bits.
proof fn lemma_quotient_of_powers(q: int, length: nat, r: nat, k: nat, t: nat)
    requires
        length > 0,
        power((length - 1) as nat) <= q < power(length),
        t > 0 ==> length == r + k + 1,
        t == 0 ==> length <= r + k + 1,
    ensures
        q / (power(r) as int) < 2 * power(k),
        t > 0 ==> q / (power(r) as int) >= power(k),
{
    let d = power(r) as int;
    vstd::arithmetic::power2::lemma_pow2_pos(r);
    vstd::arithmetic::power2::lemma_pow2_unfold(k + 1);
    vstd::arithmetic::power2::lemma_pow2_adds(k + 1, r);
    lemma_power_grows(length, r + k + 1);
    let top = power(k + 1) as int;
    assert(q < d * top) by (nonlinear_arith)
        requires
            q < power(length),
            power(length) <= power(r + k + 1),
            power(r + k + 1) == top * d,
    ;
    vstd::arithmetic::div_mod::lemma_multiply_divide_lt(q, d, top);
    if t > 0 {
        vstd::arithmetic::power2::lemma_pow2_adds(k, r);
        let low = power(k) as int;
        assert(low * d <= q);
        vstd::arithmetic::div_mod::lemma_div_is_ordered(low * d, q, d);
        vstd::arithmetic::div_mod::lemma_div_multiples_vanish(low, d);
        assert(low * d == d * low) by (nonlinear_arith);
    }
}

/// A whole number of steps is rounded to itself.
proof fn lemma_exact_steps(num: nat, den: nat, e: int, k: nat, length: nat, t: nat, m: nat)
    requires
        k > 0,
        den > 0,
        length > 0,
        num % den == 0,
        power((length - 1) as nat) <= num / den < power(length),
        t == (if length + e > k + 1 {
            length + e - k - 1
        } else {
            0
        }),
        e >= t,
        m == (num / den) * power((e - t) as nat),
    ensures
        m < 2 * power(k),
        rounds_to(t * power(k) + m, scaled_num(num, e), scaled_den(den, e), k),
{
    let q = (num / den) as int;
    let s = (e - t) as nat;
    let f = power(s) as int;
    vstd::arithmetic::div_mod::lemma_fundamental_div_mod(num as int, den as int);
    vstd::arithmetic::power2::lemma_pow2_adds(s, t);
    vstd::arithmetic::power2::lemma_pow2_adds(length, s);
    vstd::arithmetic::power2::lemma_pow2_adds((length - 1) as nat, s);
    vstd::arithmetic::power2::lemma_pow2_unfold(k + 1);
    vstd::arithmetic::power2::lemma_pow2_pos(s);
    vstd::arithmetic::power2::lemma_pow2_pos(t);
    lemma_power_grows((length + s) as nat, k + 1);
    assert(q * f < power(length) * f) by (nonlinear_arith)
        requires
            q < power(length),
            f > 0,
    ;
    assert(power((length - 1) as nat) * f <= q * f) by (nonlinear_arith)
        requires
            power((length - 1) as nat) <= q,
            f > 0,
    ;
    let step = power(t) as int;
    let width = (den * power(t)) as int;
    let n = scaled_num(num, e) as int;
    assert(n == m * width) by (nonlinear_arith)
        requires
            n == num * power(e as nat),
            power(e as nat) == f * step,
            num == den * q,
            m == q * f,
            width == den * step,
    ;
    assert(width > 0) by (nonlinear_arith)
        requires
            width == den * step,
            den > 0,
            step > 0,
    ;
    assert((2 * m - 1) * width == 2 * (m * width) - width) by (nonlinear_arith);
    assert((2 * m + 1) * width == 2 * (m * width) + width) by (nonlinear_arith);
    lemma_rounds_to_steps(t, m, n as nat, den, k);
}

/// The pattern, of an exponent and `k` fraction bits, that a magnitude of `num / den * 2^e`
/// is rounded to, where `q` is the quotient of `num / den` and `inexact` says whether it leaves
/// a remainder. The exponent `top` is the first that is too large.
pub(crate) fn round_parts(
    q: u128,
    inexact: bool,
    e: i64,
    k: u64,
    top: u64,
    Ghost(num): Ghost<nat>,
    Ghost(den): Ghost<nat>,
) -> (pattern: u64)
    requires
        0 < q < 0x8000_0000_0000_0000_0000_0000_0000_0000,
        den > 0,
        q == num / den,
        inexact == (num % den != 0),
        inexact ==> q >= power((k + 2) as nat),
        0 < k <= 52,
        top <= 2047,
        -10000 <= e <= 10000,
    ensures
        pattern == rounded(scaled_num(num, e as int), scaled_den(den, e as int), k as nat, top as nat * power(k as nat)),
        pattern <= top as nat * power(k as nat),
        exists|exact: nat| rounds_to(exact, scaled_num(num, e as int), scaled_den(den, e as int), k as nat),
{
    let length = bit_length(q);
    let t: i64 = if length as i64 + e > k as i64 + 1 {
        length as i64 + e - k as i64 - 1
    } else {
        0
    };
    let r: i64 = t - e;
    let ghost limit = (top as nat * power(k as nat)) as nat;
    proof {
        vstd::arithmetic::power2::lemma2_to64_rest();
        vstd::arithmetic::power2::lemma2_to64();
        lemma_power_grows(k as nat, 52);
        lemma_power_127();
        if inexact && length <= k + 2 {
            lemma_power_grows(length as nat, (k + 2) as nat);
        }
    }
    let m: u128 = if r <= 0 {
        let ghost steps = (num / den) * power((e - t) as nat);
        proof {
            lemma_exact_steps(num, den, e as int, k as nat, length as nat, t as nat, steps);
            lemma_shift_fits(q as nat, (e - t) as nat, k as nat);
        }
        let factor = power_of_two((0 - r) as u64);
        q * factor
    } else {
        let ghost steps = rounded_shift(q as int, inexact, power(r as nat) as int);
        proof {
            lemma_shift_is_positive(q as int, inexact, r as nat);
            lemma_round_down_bits(num, den, e as int, k as nat, length as nat, t as nat, r as nat, steps as nat);
        }
        if r > 127 {
            proof {
                lemma_nothing_left(q as int, inexact, r as nat);
            }
            0
        } else {
            let d = power_of_two(r as u64);
            proof {
                vstd::arithmetic::power2::lemma_pow2_unfold(r as nat);
            }
            let h = q / d;
            let rest = q % d;
            if rest > d / 2 || (rest == d / 2 && (inexact || h % 2 == 1)) {
                h + 1
            } else {
                h
            }
        }
    };
    proof {
        let pattern = (t as nat * power(k as nat) + m as nat) as nat;
        assert(rounds_to(pattern, scaled_num(num, e as int), scaled_den(den, e as int), k as nat));
        lemma_scaled_den_is_positive(den, e as int);
        lemma_rounded_is(pattern, scaled_num(num, e as int), scaled_den(den, e as int), k as nat, limit);
        let binade = t as int;
        let one = power(k as nat) as int;
        if t >= top {
            assert(binade * one >= top * one) by (nonlinear_arith)
                requires
                    binade >= top,
                    one >= 0,
            ;
        } else {
            assert(binade * one + one <= top * one) by (nonlinear_arith)
                requires
                    binade + 1 <= top,
                    one >= 0,
            ;
            assert(0 <= binade * one) by (nonlinear_arith)
                requires
                    0 <= binade,
                    one >= 0,
            ;
        }
        assert(top as nat * power(k as nat) <= 2047 * power(52)) by (nonlinear_arith)
            requires
                top <= 2047,
                power(k as nat) <= power(52),
        ;
    }
    let one = power_of_two(k);
    let limit: u128 = top as u128 * one;
    if t >= top as i64 {
        limit as u64
    } else {
        let pattern: u128 = t as u128 * one + m;
        if pattern < limit {
            pattern as u64
        } else {
            limit as u64
        }
    }
}

/// A positive number has a number of bits.
proof fn lemma_bit_length(q: nat) -> (length: nat)
    requires
        q > 0,
    ensures
        length > 0,
        power((length - 1) as nat) <= q < power(length),
    decreases q,
{
    vstd::arithmetic::power2::lemma2_to64();
    if q == 1 {
        1
    } else {
        let half = lemma_bit_length(q / 2);
        vstd::arithmetic::power2::lemma_pow2_unfold(half + 1);
        vstd::arithmetic::power2::lemma_pow2_unfold(half);
        half + 1
    }
}

/// A number of at most `k + 1` bits, times a power of two that is not too large, is a magnitude.
pub proof fn few_bits_are_exact(q: nat, e: nat, k: nat, top: nat)
    requires
        k > 0,
        0 < q < power(k + 1),
        e + 1 < top,
    ensures
        rounded(q * power(e), 1, k, top * power(k)) < top * power(k),
        magnitude(rounded(q * power(e), 1, k, top * power(k)), k) == q * power(e),
{
    let length = lemma_bit_length(q);
    if length > k + 1 {
        lemma_power_grows(k + 1, (length - 1) as nat);
    }
    let t: nat = if length + e > k + 1 {
        (length + e - k - 1) as nat
    } else {
        0
    };
    let m = q * power((e - t) as nat);
    vstd::arithmetic::div_mod::lemma_div_basics(q as int);
    lemma_exact_steps(q, 1, e as int, k, length, t, m);
    vstd::arithmetic::power2::lemma_pow2_pos(k);
    let one = power(k) as int;
    assert(t * one + 2 * one <= top * one) by (nonlinear_arith)
        requires
            t + 2 <= top,
            one > 0,
    ;
    lemma_rounded_is(t * power(k) + m, q * power(e), 1, k, top * power(k));
    if t > 0 {
        vstd::arithmetic::power2::lemma_pow2_adds((length - 1) as nat, (e - t) as nat);
        let low = power((length - 1) as nat) as int;
        let f = power((e - t) as nat) as int;
        assert(low * f <= q * f) by (nonlinear_arith)
            requires
                low <= q,
                f >= 0,
        ;
    }
    lemma_magnitude_of_steps(t, m, k);
    vstd::arithmetic::power2::lemma_pow2_adds((e - t) as nat, t);
    let f = power((e - t) as nat) as int;
    let step = power(t) as int;
    assert((q * f) * step == q * (f * step)) by (nonlinear_arith);
}

/// Every fraction is rounded to some pattern.
pub proof fn rounding_exists(num: nat, den: nat, k: nat)
    requires
        den > 0,
        k > 0,
    ensures
        exists|pattern: nat| rounds_to(pattern, num, den, k),
{
    if num == 0 {
        zero_has_no_magnitude(0, k);
        zero_has_no_magnitude(1, k);
        let above = (magnitude(0, k) + magnitude(1, k)) as int;
        assert(above * den > 0) by (nonlinear_arith)
            requires
                above > 0,
                den > 0,
        ;
        assert(rounds_to(0, 0, den, k));
    } else {
        let s = lemma_bit_length(den);
        let f = power(s) as int;
        let wide = (num * power(s)) as nat;
        assert(wide >= den) by (nonlinear_arith)
            requires
                wide == num * f,
                num >= 1,
                f > den,
        ;
        vstd::arithmetic::div_mod::lemma_div_non_zero(wide as int, den as int);
        let q = wide / den;
        let length = lemma_bit_length(q);
        let e = -(s as int);
        let t: nat = if length + e > k + 1 {
            (length + e - k - 1) as nat
        } else {
            0
        };
        let r = (t - e) as nat;
        let m = rounded_shift(q as int, wide % den != 0, power(r) as int);
        lemma_shift_is_positive(q as int, wide % den != 0, r);
        lemma_round_down_bits(wide, den, e, k, length, t, r, m as nat);
        let pattern = (t * power(k) + m) as nat;
        vstd::arithmetic::power2::lemma_pow2_pos(s);
        assert(den * f > 0) by (nonlinear_arith)
            requires
                den > 0,
                f > 0,
        ;
        assert(wide * den == num * (den * f)) by (nonlinear_arith)
            requires
                wide == num * f,
        ;
        lemma_same_fraction(pattern, wide, (den * f) as nat, num, den, k);
        assert(rounds_to(pattern, num, den, k));
    }
}

/// Rounding keeps the order of two fractions with the same denominator.
pub proof fn rounding_is_monotonic(small: nat, large: nat, den: nat, k: nat, limit: nat)
    requires
        small <= large,
        den > 0,
        k > 0,
    ensures
        rounded(small, den, k, limit) <= rounded(large, den, k, limit),
{
    rounding_exists(small, den, k);
    rounding_exists(large, den, k);
    let first = choose|pattern: nat| rounds_to(pattern, small, den, k);
    let second = choose|pattern: nat| rounds_to(pattern, large, den, k);
    if second < first {
        let above = (magnitude(second, k) + magnitude(second + 1, k)) as int;
        let below = (magnitude((first - 1) as nat, k) + magnitude(first, k)) as int;
        if second + 1 < first {
            magnitude_is_monotonic(second, (first - 1) as nat, k);
            magnitude_is_monotonic(second + 1, first, k);
            assert(above * den < below * den) by (nonlinear_arith)
                requires
                    above < below,
                    den > 0,
            ;
        }
    }
}

/// Above the smallest exponent, what rounding adds or takes away is at most one part in
/// `2^(k + 1)` of the result.
pub proof fn rounding_is_close(pattern: nat, num: nat, den: nat, k: nat)
    requires
        rounds_to(pattern, num, den, k),
        pattern >= power(k),
    ensures
        ({
            let result = magnitude(pattern, k) * den;
            -result <= 2 * power(k) * (num - result) <= result
        }),
{
    let one = power(k) as int;
    vstd::arithmetic::power2::lemma_pow2_pos(k);
    let exponent = pattern as int / one;
    let fraction = pattern as int % one;
    vstd::arithmetic::div_mod::lemma_fundamental_div_mod(pattern as int, one);
    vstd::arithmetic::div_mod::lemma_mod_bound(pattern as int, one);
    assert(exponent >= 1) by (nonlinear_arith)
        requires
            pattern == one * exponent + fraction,
            pattern >= one,
            0 <= fraction < one,
    ;
    let t = exponent - 1;
    let steps = one + fraction;
    let step = power(t as nat) as int;
    vstd::arithmetic::power2::lemma_pow2_pos(t as nat);
    assert(pattern == t * one + steps) by (nonlinear_arith)
        requires
            pattern == one * exponent + fraction,
            t == exponent - 1,
            steps == one + fraction,
    ;
    lemma_magnitude_of_steps(t as nat, steps as nat, k);
    lemma_magnitude_of_steps(t as nat, (steps + 1) as nat, k);
    let size = magnitude(pattern, k) as int;
    let above = magnitude(pattern + 1, k) as int;
    let below = magnitude((pattern - 1) as nat, k) as int;
    assert(above == size + step) by (nonlinear_arith)
        requires
            size == steps * step,
            above == (steps + 1) * step,
    ;
    assert(below >= size - step) by {
        if fraction > 0 || t == 0 {
            lemma_magnitude_of_steps(t as nat, (steps - 1) as nat, k);
            assert((steps - 1) * step == steps * step - step) by (nonlinear_arith);
        } else {
            lemma_magnitude_of_steps((t - 1) as nat, (2 * one - 1) as nat, k);
            vstd::arithmetic::power2::lemma_pow2_unfold(t as nat);
            let half = power((t - 1) as nat) as int;
            assert((t - 1) * one + (2 * one - 1) == t * one + steps - 1) by (nonlinear_arith)
                requires
                    steps == one,
            ;
            assert((2 * one - 1) * half == steps * step - half) by (nonlinear_arith)
                requires
                    steps == one,
                    step == 2 * half,
            ;
        }
    }
    assert(one * step <= size) by (nonlinear_arith)
        requires
            size == steps * step,
            one <= steps,
            step >= 0,
    ;
    lemma_close(size, step, below, above, num as int, den as int, one);
}

/// What rounding adds or takes away is at most one part in `2^(k + 1)` of the result and half of
/// the smallest positive magnitude.
pub proof fn rounding_is_near(pattern: nat, num: nat, den: nat, k: nat)
    requires
        rounds_to(pattern, num, den, k),
    ensures
        ({
            let result = magnitude(pattern, k) * den;
            let bound = result + power(k) * den;
            -bound <= 2 * power(k) * (num - result) <= bound
        }),
{
    let one = power(k) as int;
    vstd::arithmetic::power2::lemma_pow2_pos(k);
    let result = (magnitude(pattern, k) * den) as int;
    assert(one * den >= 0) by (nonlinear_arith)
        requires
            one > 0,
            den >= 0,
    ;
    assert(result >= 0) by (nonlinear_arith)
        requires
            result == magnitude(pattern, k) * den,
    ;
    if pattern >= power(k) {
        rounding_is_close(pattern, num, den, k);
    } else {
        vstd::arithmetic::power2::lemma2_to64();
        lemma_magnitude_of_steps(0, pattern, k);
        lemma_magnitude_of_steps(0, pattern + 1, k);
        assert(pattern * 1 == pattern);
        assert((pattern + 1) * 1 == pattern + 1);
        assert(magnitude(pattern, k) == pattern);
        assert(magnitude(pattern + 1, k) == pattern + 1);
        let p = pattern as int;
        let d = den as int;
        assert((p + (p + 1)) * d == 2 * (p * d) + d) by (nonlinear_arith);
        if pattern > 0 {
            lemma_magnitude_of_steps(0, (pattern - 1) as nat, k);
            assert((p - 1) * 1 == p - 1);
            assert(((p - 1) + p) * d == 2 * (p * d) - d) by (nonlinear_arith);
        } else {
            assert(0 * d == 0);
        }
        let gap = num - result;
        assert(-d <= 2 * gap <= d);
        assert(-(one * d) <= (2 * one) * gap <= one * d) by (nonlinear_arith)
            requires
                -d <= 2 * gap <= d,
                one > 0,
        ;
    }
}

/// A fraction between two powers of two is rounded to a finite magnitude between them, and what
/// rounding adds or takes away is at most one part in `2^(k + 1)` of it.
pub proof fn rounding_between_powers(num: nat, den: nat, low: nat, high: nat, k: nat, top: nat)
    requires
        k > 0,
        den > 0,
        k <= low <= high,
        high + 1 < top,
        power(low) * den <= num <= power(high) * den,
    ensures
        rounded(num, den, k, top * power(k)) < top * power(k),
        ({
            let size = magnitude(rounded(num, den, k, top * power(k)), k);
            &&& power(low) <= size <= power(high)
            &&& -(size * den) <= 2 * power(k) * (num - size * den) <= size * den
        }),
{
    let limit = top * power(k);
    vstd::arithmetic::power2::lemma2_to64();
    lemma_power_grows(1, k + 1);
    few_bits_are_exact(1, low, k, top);
    rounding_exists(power(low), 1, k);
    rounding_exists(power(high), 1, k);
    equal_fractions_round_alike(power(low), 1, power(low) * den, den, k, limit);
    equal_fractions_round_alike(power(high), 1, power(high) * den, den, k, limit);
    rounding_is_monotonic(power(low) * den, num, den, k, limit);
    rounding_is_monotonic(num, power(high) * den, den, k, limit);
    few_bits_are_exact(1, high, k, top);
    let first = rounded(power(low), 1, k, limit);
    let last = rounded(power(high), 1, k, limit);
    let pattern = rounded(num, den, k, limit);
    assert(first <= pattern <= last < limit);
    if first < pattern {
        magnitude_is_monotonic(first, pattern, k);
    }
    if pattern < last {
        magnitude_is_monotonic(pattern, last, k);
    }
    rounding_exists(num, den, k);
    assert(rounds_to(pattern, num, den, k));
    lemma_power_grows(k, low);
    if pattern < power(k) {
        vstd::arithmetic::div_mod::lemma_basic_div(pattern as int, power(k) as int);
        vstd::arithmetic::div_mod::lemma_small_mod(pattern, power(k));
    }
    rounding_is_close(pattern, num, den, k);
}

proof fn lemma_close(size: int, step: int, below: int, above: int, num: int, den: int, one: int)
    requires
        den >= 0,
        one > 0,
        above == size + step,
        below >= size - step,
        one * step <= size,
        (below + size) * den <= 2 * num <= (size + above) * den,
    ensures
        -(size * den) <= 2 * one * (num - size * den) <= size * den,
{
    let gap = 2 * (num - size * den);
    assert(gap <= step * den) by (nonlinear_arith)
        requires
            gap == 2 * (num - size * den),
            2 * num <= (size + above) * den,
            above == size + step,
    ;
    assert(gap >= -(step * den)) by (nonlinear_arith)
        requires
            gap == 2 * (num - size * den),
            2 * num >= (below + size) * den,
            below >= size - step,
            den >= 0,
    ;
    assert(-(one * (step * den)) <= one * gap <= one * (step * den)) by (nonlinear_arith)
        requires
            -(step * den) <= gap <= step * den,
            one > 0,
    ;
    assert(one * (step * den) <= size * den) by (nonlinear_arith)
        requires
            one * step <= size,
            den >= 0,
    ;
    assert(one * gap == 2 * one * (num - size * den)) by (nonlinear_arith)
        requires
            gap == 2 * (num - size * den),
    ;
}

proof fn lemma_scaled_den_is_positive(den: nat, e: int)
    requires
        den > 0,
    ensures
        scaled_den(den, e) > 0,
{
    if e < 0 {
        vstd::arithmetic::power2::lemma_pow2_pos((-e) as nat);
        assert(den * power((-e) as nat) > 0) by (nonlinear_arith)
            requires
                den > 0,
                power((-e) as nat) > 0,
        ;
    }
}

proof fn lemma_shift_is_positive(q: int, inexact: bool, r: nat)
    requires
        q >= 0,
    ensures
        rounded_shift(q, inexact, power(r) as int) >= 0,
{
    vstd::arithmetic::power2::lemma_pow2_pos(r);
    vstd::arithmetic::div_mod::lemma_div_pos_is_pos(q, power(r) as int);
}

/// A quotient of 127 bits is less than half of `2^128` and of anything larger.
proof fn lemma_nothing_left(q: int, inexact: bool, r: nat)
    requires
        0 <= q < 0x8000_0000_0000_0000_0000_0000_0000_0000,
        r > 127,
    ensures
        rounded_shift(q, inexact, power(r) as int) == 0,
{
    lemma_power_127();
    vstd::arithmetic::power2::lemma_pow2_unfold(r);
    lemma_power_grows(127, (r - 1) as nat);
    let d = power(r) as int;
    vstd::arithmetic::div_mod::lemma_basic_div(q, d);
    vstd::arithmetic::div_mod::lemma_small_mod(q as nat, d as nat);
}

/// A shift that stays below `2^(k + 1)` is by few bits.
proof fn lemma_shift_fits(q: nat, s: nat, k: nat)
    requires
        q > 0,
        q * power(s) < 2 * power(k),
        k <= 52,
    ensures
        s <= 127,
        q * power(s) < 0x20_0000_0000_0000,
{
    vstd::arithmetic::power2::lemma2_to64_rest();
    lemma_power_grows(k, 52);
    let f = power(s) as int;
    assert(f <= q * f) by (nonlinear_arith)
        requires
            q >= 1,
            f >= 0,
    ;
    if s > 127 {
        lemma_power_127();
        lemma_power_grows(127, s);
    }
}

} // verus!
