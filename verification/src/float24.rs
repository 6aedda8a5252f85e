//! LTC2949 Float24 encoding.
//!
//! The LTC2949 stores NTC and sense-resistor temperature-compensation parameters in a
//! device-specific 24-bit floating-point format: one sign bit, a 7-bit exponent biased by 63,
//! and a 16-bit mantissa, MSB first. [`Float24`] converts a binary32 number into the bytes
//! expected by those registers; conversion truncates the lower mantissa bits.
//!
//! Zero retains its sign. Values below the Float24 normal range underflow to signed zero,
//! while values above its finite range saturate at the largest magnitude.
use vstd::prelude::*;

use crate::binary::Binary32;

verus! {

/// LTC2949 Float24 value encoder (datasheet Table 68).
#[derive(Copy, Clone, Debug)]
pub struct Float24 {
    value: Binary32,
}

/// The smallest binary32 pattern whose magnitude Float24 can represent (an exponent of 65).
pub const SMALLEST_NORMAL: u32 = 0x2080_0000;

/// The smallest binary32 pattern whose magnitude is too large for Float24 (an exponent of
/// 191).
pub const TOO_LARGE: u32 = 0x5F80_0000;

/// The largest finite Float24 magnitude: exponent 0x7E, mantissa all ones.
pub const LARGEST_CODE: u32 = 0x7E_FFFF;

/// The exponent and mantissa bits of the Float24 number for a binary32 pattern without its
/// sign: the exponent is re-biased by 64, and the mantissa loses its low seven bits.
pub open spec fn magnitude_code(pattern: nat) -> nat {
    if pattern < SMALLEST_NORMAL {
        0
    } else if pattern >= TOO_LARGE {
        LARGEST_CODE as nat
    } else {
        ((pattern - 0x2000_0000) / 128) as nat
    }
}

/// The 24 bits of the Float24 number for `value`.
pub open spec fn code(value: Binary32) -> nat {
    if value.is_negative() {
        0x80_0000 + magnitude_code(value.pattern())
    } else {
        magnitude_code(value.pattern())
    }
}

/// The three bytes of the Float24 number for `value`, MSB first.
pub open spec fn bytes_of(value: Binary32) -> Seq<u8> {
    crate::bytes::encoded(code(value) as int, 3)
}

impl View for Float24 {
    type V = Binary32;

    closed spec fn view(&self) -> Binary32 {
        self.value
    }
}

impl PartialEq for Float24 {
    fn eq(&self, other: &Self) -> (equal: bool) {
        self.value == other.value
    }
}

impl vstd::std_specs::cmp::PartialEqSpecImpl for Float24 {
    open spec fn obeys_eq_spec() -> bool {
        true
    }

    open spec fn eq_spec(&self, other: &Self) -> bool {
        vstd::std_specs::cmp::PartialEqSpec::eq_spec(&self@, &other@)
    }
}

impl Float24 {
    /// Creates a Float24 encoder for `value`.
    pub fn new(value: Binary32) -> (float: Self)
        ensures
            float@ == value,
    {
        Float24 { value }
    }

    /// Encodes the value as three MSB-first Float24 bytes.
    ///
    /// Out-of-range values clamp to +/-0 or the largest finite magnitude.
    #[verifier::rlimit(40)]
    pub fn encode(self) -> (bytes: [u8; 3])
        ensures
            bytes@ == bytes_of(self@),
    {
        let bits: u32 = self.value.to_bits();
        let sign: u32 = bits / 0x8000_0000;
        let exponent: u32 = (bits / 0x80_0000) % 0x100;
        let mantissa: u32 = bits % 0x80_0000;

        // Re-bias: binary32 bias 127 -> Float24 bias 63 -> subtract 64.
        let (float24_exponent, float24_mantissa): (u32, u32) = if exponent < 65 {
            // Underflow, zero and subnormal numbers -> signed zero.
            (0, 0)
        } else if exponent > 0x7E + 64 {
            // Overflow -> largest finite magnitude.
            (0x7E, 0xFFFF)
        } else {
            // Truncate mantissa from 23 to 16 bits.
            (exponent - 64, mantissa / 128)
        };

        let encoded: u32 = sign * 0x80_0000 + float24_exponent * 0x1_0000 + float24_mantissa;
        let bytes = [(encoded / 0x1_0000) as u8, ((encoded / 0x100) % 0x100) as u8, (encoded % 0x100) as u8];
        proof {
            assert(encoded == code(self@));
            reveal_with_fuel(crate::bytes::encoded, 4);
            assert(bytes@ =~= bytes_of(self@));
        }
        bytes
    }

    /// Encodes only the top two Float24 bytes.
    ///
    /// This is used for the 16-bit `RSxT0` registers; the device treats the
    /// missing mantissa LSB as 0.
    pub fn encode_high(self) -> (bytes: [u8; 2])
        ensures
            bytes@ == bytes_of(self@).take(2),
    {
        let all = self.encode();
        let bytes = [all[0], all[1]];
        proof {
            assert(bytes@ =~= all@.take(2));
        }
        bytes
    }
}

/// Encoding keeps the order of magnitudes.
pub proof fn encoding_is_monotonic(small: nat, large: nat)
    requires
        small <= large,
    ensures
        magnitude_code(small) <= magnitude_code(large) <= LARGEST_CODE,
{
}

/// Negating a number flips the top bit of its encoding and nothing else.
pub proof fn negation_flips_the_sign_bit(value: Binary32, negated: Binary32)
    requires
        value.pattern() == negated.pattern(),
        !value.is_negative(),
        negated.is_negative(),
    ensures
        bytes_of(value).len() == 3,
        bytes_of(value)[0] < 0x80,
        bytes_of(negated) == bytes_of(value).update(0, (bytes_of(value)[0] + 0x80) as u8),
{
    encoding_is_monotonic(value.pattern(), value.pattern());
    lemma_top_bit(code(value));
}

/// The top bit of a 24-bit number is that of its first byte.
proof fn lemma_top_bit(number: nat)
    requires
        number < 0x80_0000,
    ensures
        ({
            let bytes = crate::bytes::encoded(number as int, 3);
            &&& bytes.len() == 3
            &&& bytes[0] < 0x80
            &&& crate::bytes::encoded((number + 0x80_0000) as int, 3) == bytes.update(0, (bytes[0] + 0x80) as u8)
        }),
{
    let bytes = crate::bytes::encoded(number as int, 3);
    lemma_three_bytes(number);
    lemma_three_bytes(number + 0x80_0000);
    let first = number / 0x1_0000;
    assert((number + 0x80_0000) / 0x1_0000 == first + 0x80);
    assert((number + 0x80_0000) / 0x100 == number / 0x100 + 0x8000);
    assert(crate::bytes::encoded((number + 0x80_0000) as int, 3) =~= bytes.update(0, (bytes[0] + 0x80) as u8));
}

/// The three bytes of a 24-bit number.
proof fn lemma_three_bytes(number: nat)
    requires
        number < 0x100_0000,
    ensures
        crate::bytes::encoded(number as int, 3) == seq![
            (number / 0x1_0000) as u8,
            (number / 0x100 % 0x100) as u8,
            (number % 0x100) as u8,
        ],
{
    reveal_with_fuel(crate::bytes::encoded, 4);
    assert(crate::bytes::encoded(number as int, 3) =~= seq![
        (number / 0x1_0000) as u8,
        (number / 0x100 % 0x100) as u8,
        (number % 0x100) as u8,
    ]);
}

/// The three bytes of a Float24 number are its 24 bits, MSB first: the sign in the top bit, then
/// seven exponent bits, then sixteen of mantissa.
pub proof fn three_bytes(value: Binary32)
    ensures
        ({
            let bytes = bytes_of(value);
            &&& bytes.len() == 3
            &&& bytes[0] * 0x1_0000 + bytes[1] * 0x100 + bytes[2] == code(value)
            &&& value.is_negative() <==> bytes[0] >= 0x80
            &&& (bytes[0] % 0x80) * 0x1_0000 + bytes[1] * 0x100 + bytes[2] == magnitude_code(value.pattern())
        }),
{
    encoding_is_monotonic(value.pattern(), value.pattern());
    lemma_three_bytes(code(value));
    let number = code(value) as int;
    assert(number / 0x100 / 0x100 == number / 0x1_0000);
}

/// Within the Float24 range, encoding truncates: the encoded magnitude is at most the given
/// one, and short of it by less than one Float24 step.
///
/// A Float24 number has 16 mantissa bits, and its unit, the distance between its smallest
/// neighbours, is 2 to the power of 71 binary32 units.
pub proof fn encoding_truncates(pattern: nat)
    requires
        SMALLEST_NORMAL <= pattern < TOO_LARGE,
    ensures
        ({
            let unit = crate::rounding::power(71);
            let given = crate::rounding::magnitude(pattern, 23);
            let encoded = crate::rounding::magnitude(magnitude_code(pattern), 16) * unit;
            let next = crate::rounding::magnitude(magnitude_code(pattern) + 1, 16) * unit;
            encoded <= given < next
        }),
{
    vstd::arithmetic::power2::lemma2_to64();
    let exponent = pattern as int / 0x80_0000;
    let mantissa = pattern as int % 0x80_0000;
    let kept = mantissa / 128;
    let lost = mantissa % 128;
    let short = magnitude_code(pattern) as int;
    assert(short / 0x1_0000 == exponent - 64);
    assert(short % 0x1_0000 == kept);
    let step = crate::rounding::power((exponent - 1) as nat) as int;
    let low = crate::rounding::power((exponent - 65) as nat) as int;
    let unit = crate::rounding::power(71) as int;
    vstd::arithmetic::power2::lemma_pow2_adds((exponent - 65) as nat, 71);
    vstd::arithmetic::power2::lemma_pow2_adds((exponent - 1) as nat, 7);
    vstd::arithmetic::power2::lemma_pow2_pos((exponent - 1) as nat);
    vstd::arithmetic::power2::lemma_pow2_unfold((exponent - 64) as nat);
    assert(low * unit == step * 128);
    assert(crate::rounding::magnitude(pattern, 23) == (0x80_0000 + mantissa) * step);
    assert(crate::rounding::magnitude(short as nat, 16) == (0x1_0000 + kept) * low);
    assert(((0x1_0000 + kept) * low) * unit == (0x1_0000 + kept) * (low * unit)) by (nonlinear_arith);
    assert((0x1_0000 + kept) * (step * 128) == (0x80_0000 + 128 * kept) * step) by (nonlinear_arith);
    assert((0x80_0000 + 128 * kept) * step <= (0x80_0000 + mantissa) * step) by (nonlinear_arith)
        requires
            128 * kept <= mantissa,
            step > 0,
    ;
    assert((0x80_0000 + mantissa) * step < (0x80_0000 + 128 * kept + 128) * step) by (nonlinear_arith)
        requires
            mantissa < 128 * kept + 128,
            step > 0,
    ;
    let next = crate::rounding::magnitude((short + 1) as nat, 16) as int;
    if kept == 0xFFFF {
        assert((short + 1) / 0x1_0000 == exponent - 63);
        assert((short + 1) % 0x1_0000 == 0);
        assert(next == 0x1_0000 * (2 * low));
        assert((0x1_0000 * (2 * low)) * unit == 0x2_0000 * (low * unit)) by (nonlinear_arith);
        assert(0x2_0000 * (step * 128) == (0x80_0000 + 128 * kept + 128) * step) by (nonlinear_arith)
            requires
                kept == 0xFFFF,
        ;
    } else {
        assert((short + 1) / 0x1_0000 == exponent - 64);
        assert((short + 1) % 0x1_0000 == kept + 1);
        assert(next == (0x1_0000 + kept + 1) * low);
        assert(((0x1_0000 + kept + 1) * low) * unit == (0x1_0000 + kept + 1) * (low * unit)) by (nonlinear_arith);
        assert((0x1_0000 + kept + 1) * (step * 128) == (0x80_0000 + 128 * kept + 128) * step) by (nonlinear_arith);
    }
}

/// What the three bytes of a Float24 number stand for: its sign and its size, in binary32 units. A
/// Float24 number has seven exponent bits and 16 mantissa bits, and its unit is 2 to the power of
/// 71 binary32 units.
pub open spec fn size_held(bytes: Seq<u8>) -> nat {
    crate::rounding::magnitude(((bytes[0] % 0x80) * 0x1_0000 + bytes[1] * 0x100 + bytes[2]) as nat, 16)
        * crate::rounding::power(71)
}

/// The bytes of a number hold its sign, and its size truncated to 16 mantissa bits, if that is
/// neither below the smallest normal Float24 number, for which they hold zero, nor too large, for
/// which they hold the largest finite one.
pub proof fn bytes_hold_the_number(value: Binary32)
    ensures
        ({
            let bytes = bytes_of(value);
            let smallest = crate::rounding::power(87);
            let beyond = crate::rounding::power(213);
            &&& bytes.len() == 3
            &&& value.is_negative() <==> bytes[0] >= 0x80
            &&& value.size() < smallest ==> bytes[0] % 0x80 == 0 && bytes[1] == 0 && bytes[2] == 0
            &&& value.size() >= beyond ==> bytes[0] % 0x80 == 0x7E && bytes[1] == 0xFF && bytes[2] == 0xFF
            &&& smallest <= value.size() < beyond ==> size_held(bytes) <= value.size() && (value.size() - size_held(bytes))
                * 0x1_0000 < value.size()
        }),
{
    three_bytes(value);
    vstd::arithmetic::power2::lemma2_to64();
    let pattern = value.pattern();
    lemma_size_at(SMALLEST_NORMAL as nat, 65, 0);
    lemma_size_at(TOO_LARGE as nat, 191, 0);
    vstd::arithmetic::power2::lemma_pow2_adds(23, 64);
    vstd::arithmetic::power2::lemma_pow2_adds(23, 190);
    crate::rounding::lemma_power_grows(87, 213);
    if pattern < SMALLEST_NORMAL {
        crate::rounding::magnitude_is_monotonic(pattern, SMALLEST_NORMAL as nat, 23);
    } else {
        if pattern > SMALLEST_NORMAL {
            crate::rounding::magnitude_is_monotonic(SMALLEST_NORMAL as nat, pattern, 23);
        }
        if pattern < TOO_LARGE {
            crate::rounding::magnitude_is_monotonic(pattern, TOO_LARGE as nat, 23);
            encoding_truncates(pattern);
            lemma_step_is_small(pattern);
        } else if pattern > TOO_LARGE {
            crate::rounding::magnitude_is_monotonic(TOO_LARGE as nat, pattern, 23);
        }
    }
}

/// The size of the binary32 number with an exponent and a fraction.
proof fn lemma_size_at(pattern: nat, exponent: nat, fraction: nat)
    requires
        exponent > 0,
        fraction < 0x80_0000,
        pattern == exponent * 0x80_0000 + fraction,
    ensures
        crate::rounding::magnitude(pattern, 23) == (0x80_0000 + fraction) * crate::rounding::power((exponent - 1) as nat),
{
    vstd::arithmetic::power2::lemma2_to64();
    assert(pattern / 0x80_0000 == exponent && pattern % 0x80_0000 == fraction);
}

/// One Float24 step is at most one part in 2^16 of the number it starts from.
proof fn lemma_step_is_small(pattern: nat)
    requires
        SMALLEST_NORMAL <= pattern < TOO_LARGE,
    ensures
        ({
            let unit = crate::rounding::power(71);
            let encoded = crate::rounding::magnitude(magnitude_code(pattern), 16) * unit;
            let next = crate::rounding::magnitude(magnitude_code(pattern) + 1, 16) * unit;
            (next - encoded) * 0x1_0000 <= encoded
        }),
{
    vstd::arithmetic::power2::lemma2_to64();
    let short = magnitude_code(pattern) as int;
    let exponent = short / 0x1_0000;
    let kept = short % 0x1_0000;
    assert(1 <= exponent <= 126);
    let low = crate::rounding::power((exponent - 1) as nat) as int;
    let unit = crate::rounding::power(71) as int;
    vstd::arithmetic::power2::lemma_pow2_unfold(exponent as nat);
    assert(crate::rounding::magnitude(short as nat, 16) == (0x1_0000 + kept) * low);
    let next = crate::rounding::magnitude((short + 1) as nat, 16) as int;
    if kept == 0xFFFF {
        assert((short + 1) / 0x1_0000 == exponent + 1);
        assert((short + 1) % 0x1_0000 == 0);
        assert(next == 0x1_0000 * (2 * low));
        assert(0x1_0000 * (2 * low) == (0x1_0000 + kept + 1) * low) by (nonlinear_arith)
            requires
                kept == 0xFFFF,
        ;
    } else {
        assert((short + 1) / 0x1_0000 == exponent);
        assert((short + 1) % 0x1_0000 == kept + 1);
        assert(next == (0x1_0000 + kept + 1) * low);
    }
    let size = (0x1_0000 + kept) * low;
    assert(((0x1_0000 + kept + 1) * low) * unit - size * unit == low * unit) by (nonlinear_arith)
        requires
            size == (0x1_0000 + kept) * low,
    ;
    assert((low * unit) * 0x1_0000 <= size * unit) by (nonlinear_arith)
        requires
            size == (0x1_0000 + kept) * low,
            kept >= 0,
            low >= 0,
            unit >= 0,
    ;
}

} // verus!
