//! PEC15, the packet error code of the LTC2949 and the LTC681X family.
use vstd::prelude::*;

verus! {

/// The 15-bit packet error code: a CRC with the polynomial
/// `x^15 + x^14 + x^10 + x^8 + x^7 + x^4 + x^3 + 1`, started at 16 and sent with a zero
/// appended as its least significant bit.
pub struct PEC15;

/// The generator polynomial without its leading term.
pub const POLYNOMIAL: u16 = 0x4599;

/// The remainder before the first data bit.
pub const SEED: u16 = 0x0010;

/// The remainder after one more data bit.
pub open spec fn shift_in(remainder: u16, bit: bool) -> u16 {
    if bit != (remainder & 0x4000 != 0) {
        ((remainder << 1) & 0x7FFF) ^ POLYNOMIAL
    } else {
        (remainder << 1) & 0x7FFF
    }
}

/// The remainder after the `count` most significant bits of `byte`.
pub open spec fn shift_in_bits(remainder: u16, byte: u8, count: nat) -> u16
    decreases count,
{
    if count == 0 {
        remainder
    } else {
        shift_in(shift_in_bits(remainder, byte, (count - 1) as nat), byte & (0x80u8 >> ((count - 1) as u8)) != 0)
    }
}

/// The remainder after the bytes of `data`, each with its most significant bit first.
pub open spec fn remainder(data: Seq<u8>) -> u16
    decreases data.len(),
{
    if data.len() == 0 {
        SEED
    } else {
        shift_in_bits(remainder(data.drop_last()), data.last(), 8)
    }
}

/// The two bytes that follow `data` on the bus.
pub open spec fn pec(data: Seq<u8>) -> Seq<u8> {
    let code = remainder(data) << 1;
    seq![(code >> 8) as u8, code as u8]
}

impl PEC15 {
    /// Calculates the two PEC bytes of `data`, most significant byte first.
    pub fn calc(data: &[u8]) -> (code: [u8; 2])
        ensures
            code@ == pec(data@),
    {
        let mut rest: u16 = SEED;
        let mut i: usize = 0;
        while i < data.len()
            invariant
                i <= data.len(),
                rest == remainder(data@.take(i as int)),
            decreases data.len() - i,
        {
            let byte = data[i];
            let ghost before = rest;
            let mut count: u8 = 0;
            while count < 8
                invariant
                    count <= 8,
                    rest == shift_in_bits(before, byte, count as nat),
                decreases 8 - count,
            {
                let bit = byte & (0x80u8 >> count) != 0;
                let shifted: u16 = (rest << 1) & 0x7FFF;
                rest = if bit != (rest & 0x4000 != 0) { shifted ^ POLYNOMIAL } else { shifted };
                count = count + 1;
            }
            proof {
                let done = data@.take(i + 1);
                assert(done.drop_last() =~= data@.take(i as int));
            }
            i = i + 1;
        }
        proof {
            assert(data@.take(i as int) =~= data@);
        }
        let code: u16 = rest << 1;
        let bytes = [(code >> 8) as u8, code as u8];
        proof {
            assert(bytes@ =~= pec(data@));
        }
        bytes
    }
}

/// The remainder has 15 bits.
proof fn lemma_remainder_is_15_bits(data: Seq<u8>)
    ensures
        remainder(data) < 0x8000,
    decreases data.len(),
{
    if data.len() > 0 {
        lemma_remainder_is_15_bits(data.drop_last());
        lemma_byte_as_bits(remainder(data.drop_last()), data.last());
    }
}

/// Shifting in a byte is shifting in its eight bits, and keeps the remainder at 15 bits.
proof fn lemma_byte_as_bits(rest: u16, byte: u8) -> (steps: (u16, u16, u16, u16, u16, u16, u16))
    requires
        rest < 0x8000,
    ensures
        steps.0 == shift_in(rest, byte & 0x80 != 0),
        steps.1 == shift_in(steps.0, byte & 0x40 != 0),
        steps.2 == shift_in(steps.1, byte & 0x20 != 0),
        steps.3 == shift_in(steps.2, byte & 0x10 != 0),
        steps.4 == shift_in(steps.3, byte & 0x08 != 0),
        steps.5 == shift_in(steps.4, byte & 0x04 != 0),
        steps.6 == shift_in(steps.5, byte & 0x02 != 0),
        shift_in_bits(rest, byte, 8) == shift_in(steps.6, byte & 0x01 != 0),
        shift_in_bits(rest, byte, 8) < 0x8000,
{
    assert(0x80u8 >> 0 == 0x80 && 0x80u8 >> 1 == 0x40 && 0x80u8 >> 2 == 0x20 && 0x80u8 >> 3 == 0x10 && 0x80u8 >> 4
        == 0x08 && 0x80u8 >> 5 == 0x04 && 0x80u8 >> 6 == 0x02 && 0x80u8 >> 7 == 0x01) by (bit_vector);
    reveal_with_fuel(shift_in_bits, 9);
    let s7 = shift_in_bits(rest, byte, 7);
    let last = byte & 0x01 != 0;
    assert(shift_in(s7, last) < 0x8000) by (bit_vector);
    (
        shift_in_bits(rest, byte, 1),
        shift_in_bits(rest, byte, 2),
        shift_in_bits(rest, byte, 3),
        shift_in_bits(rest, byte, 4),
        shift_in_bits(rest, byte, 5),
        shift_in_bits(rest, byte, 6),
        s7,
    )
}

/// Shifting in one bit loses nothing of the remainder.
proof fn lemma_bit_keeps_difference(first: u16, second: u16, bit: bool)
    requires
        first < 0x8000,
        second < 0x8000,
        first != second,
    ensures
        shift_in(first, bit) != shift_in(second, bit),
        shift_in(first, bit) < 0x8000,
        shift_in(second, bit) < 0x8000,
{
    assert(first < 0x8000 && second < 0x8000 && first != second ==> shift_in(first, bit) != shift_in(second, bit)
        && shift_in(first, bit) < 0x8000 && shift_in(second, bit) < 0x8000) by (bit_vector);
}

/// Two different remainders stay different when the same byte is shifted in.
proof fn lemma_byte_keeps_difference(first: u16, second: u16, byte: u8)
    requires
        first < 0x8000,
        second < 0x8000,
        first != second,
    ensures
        shift_in_bits(first, byte, 8) != shift_in_bits(second, byte, 8),
{
    let a = lemma_byte_as_bits(first, byte);
    let b = lemma_byte_as_bits(second, byte);
    lemma_bit_keeps_difference(first, second, byte & 0x80 != 0);
    lemma_bit_keeps_difference(a.0, b.0, byte & 0x40 != 0);
    lemma_bit_keeps_difference(a.1, b.1, byte & 0x20 != 0);
    lemma_bit_keeps_difference(a.2, b.2, byte & 0x10 != 0);
    lemma_bit_keeps_difference(a.3, b.3, byte & 0x08 != 0);
    lemma_bit_keeps_difference(a.4, b.4, byte & 0x04 != 0);
    lemma_bit_keeps_difference(a.5, b.5, byte & 0x02 != 0);
    lemma_bit_keeps_difference(a.6, b.6, byte & 0x01 != 0);
}

/// Two different bytes lead from one remainder to two different ones.
proof fn lemma_byte_makes_difference(rest: u16, first: u8, second: u8)
    requires
        rest < 0x8000,
        first != second,
    ensures
        shift_in_bits(rest, first, 8) != shift_in_bits(rest, second, 8),
{
    let (a1, a2, a3, a4, a5, a6, a7) = lemma_byte_as_bits(rest, first);
    let (b1, b2, b3, b4, b5, b6, b7) = lemma_byte_as_bits(rest, second);
    assert(shift_in(a7, first & 0x01 != 0) != shift_in(b7, second & 0x01 != 0)) by (bit_vector)
        requires
            rest < 0x8000,
            first != second,
            a1 == shift_in(rest, first & 0x80 != 0),
            a2 == shift_in(a1, first & 0x40 != 0),
            a3 == shift_in(a2, first & 0x20 != 0),
            a4 == shift_in(a3, first & 0x10 != 0),
            a5 == shift_in(a4, first & 0x08 != 0),
            a6 == shift_in(a5, first & 0x04 != 0),
            a7 == shift_in(a6, first & 0x02 != 0),
            b1 == shift_in(rest, second & 0x80 != 0),
            b2 == shift_in(b1, second & 0x40 != 0),
            b3 == shift_in(b2, second & 0x20 != 0),
            b4 == shift_in(b3, second & 0x10 != 0),
            b5 == shift_in(b4, second & 0x08 != 0),
            b6 == shift_in(b5, second & 0x04 != 0),
            b7 == shift_in(b6, second & 0x02 != 0),
    ;
}

/// The remainders of two messages that differ in one byte are different.
proof fn lemma_remainder_of_corrupted_byte(data: Seq<u8>, index: int, byte: u8)
    requires
        0 <= index < data.len(),
        byte != data[index],
    ensures
        remainder(data.update(index, byte)) != remainder(data),
    decreases data.len(),
{
    let changed = data.update(index, byte);
    let front = data.drop_last();
    lemma_remainder_is_15_bits(front);
    if index == data.len() - 1 {
        assert(changed.drop_last() =~= front);
        lemma_byte_makes_difference(remainder(front), byte, data[index]);
    } else {
        assert(changed.drop_last() =~= front.update(index, byte));
        lemma_remainder_of_corrupted_byte(front, index, byte);
        lemma_remainder_is_15_bits(front.update(index, byte));
        lemma_byte_keeps_difference(remainder(front.update(index, byte)), remainder(front), data.last());
    }
}

/// The PEC bytes hold the whole remainder.
proof fn lemma_pec_holds_remainder(first: Seq<u8>, second: Seq<u8>)
    requires
        pec(first) == pec(second),
    ensures
        remainder(first) == remainder(second),
{
    lemma_remainder_is_15_bits(first);
    lemma_remainder_is_15_bits(second);
    let a = remainder(first);
    let b = remainder(second);
    assert(pec(first)[0] == pec(second)[0] && pec(first)[1] == pec(second)[1]);
    assert(a == b) by (bit_vector)
        requires
            a < 0x8000,
            b < 0x8000,
            ((a << 1) >> 8) as u8 == ((b << 1) >> 8) as u8,
            (a << 1) as u8 == (b << 1) as u8,
    ;
}

/// A message in which any one byte is altered, in any of its bits, has another PEC.
pub proof fn pec_detects_one_corrupted_byte(data: Seq<u8>, index: int, byte: u8)
    requires
        0 <= index < data.len(),
        byte != data[index],
    ensures
        pec(data.update(index, byte)) != pec(data),
{
    lemma_remainder_of_corrupted_byte(data, index, byte);
    if pec(data.update(index, byte)) == pec(data) {
        lemma_pec_holds_remainder(data.update(index, byte), data);
    }
}

/// The last bit of a PEC is always zero.
pub proof fn pec_ends_in_a_zero_bit(data: Seq<u8>)
    ensures
        pec(data).len() == 2,
        pec(data)[1] & 1 == 0,
{
    let rest = remainder(data);
    assert((rest << 1) as u8 & 1 == 0) by (bit_vector);
}

/// One more data bit is one step of a division by the generator polynomial
/// `x^15 + x^14 + x^10 + x^8 + x^7 + x^4 + x^3 + 1`: the remainder is multiplied by `x`, the bit is
/// added as `x^15`, and what is left differs from that by nothing or by the polynomial.
pub proof fn each_bit_is_a_step_of_division(rest: u16, bit: bool)
    requires
        rest < 0x8000,
    ensures
        ({
            let dividend = (rest << 1) ^ (if bit {
                0x8000u16
            } else {
                0u16
            });
            let left = shift_in(rest, bit);
            &&& left < 0x8000
            &&& dividend ^ left == 0 || dividend ^ left == 0b1100_0101_1001_1001
        }),
{
    assert(rest < 0x8000 ==> shift_in(rest, bit) < 0x8000 && ((rest << 1) ^ (if bit {
        0x8000u16
    } else {
        0u16
    }) ^ shift_in(rest, bit) == 0 || (rest << 1) ^ (if bit {
        0x8000u16
    } else {
        0u16
    }) ^ shift_in(rest, bit) == 0b1100_0101_1001_1001)) by (bit_vector);
}

/// Data that is followed by its own packet error code leaves no remainder.
pub proof fn code_leaves_no_remainder(data: Seq<u8>)
    ensures
        remainder(data + pec(data)) == 0,
        remainder(Seq::empty()) == 16,
{
    let rest = remainder(data);
    let code = rest << 1;
    let high = (code >> 8) as u8;
    let low = code as u8;
    lemma_remainder_is_15_bits(data);
    let one = data.push(high);
    let two = one.push(low);
    assert(data + pec(data) =~= two);
    assert(one.drop_last() =~= data);
    assert(two.drop_last() =~= one);
    let middle = shift_in_bits(rest, high, 8);
    assert(remainder(one) == middle);
    assert(remainder(two) == shift_in_bits(middle, low, 8));
    let steps = lemma_byte_as_bits(rest, high);
    let s1 = (rest << 1) & 0x7FFF;
    let s2 = (s1 << 1) & 0x7FFF;
    let s3 = (s2 << 1) & 0x7FFF;
    let s4 = (s3 << 1) & 0x7FFF;
    let s5 = (s4 << 1) & 0x7FFF;
    let s6 = (s5 << 1) & 0x7FFF;
    let s7 = (s6 << 1) & 0x7FFF;
    let s8 = (s7 << 1) & 0x7FFF;
    let s9 = (s8 << 1) & 0x7FFF;
    let s10 = (s9 << 1) & 0x7FFF;
    let s11 = (s10 << 1) & 0x7FFF;
    let s12 = (s11 << 1) & 0x7FFF;
    let s13 = (s12 << 1) & 0x7FFF;
    let s14 = (s13 << 1) & 0x7FFF;
    let s15 = (s14 << 1) & 0x7FFF;
    let s16 = (s15 << 1) & 0x7FFF;
    assert((high & 0x80 != 0) == (rest & 0x4000 != 0)
        && (high & 0x40 != 0) == (s1 & 0x4000 != 0)
        && (high & 0x20 != 0) == (s2 & 0x4000 != 0)
        && (high & 0x10 != 0) == (s3 & 0x4000 != 0)
        && (high & 0x08 != 0) == (s4 & 0x4000 != 0)
        && (high & 0x04 != 0) == (s5 & 0x4000 != 0)
        && (high & 0x02 != 0) == (s6 & 0x4000 != 0)
        && (high & 0x01 != 0) == (s7 & 0x4000 != 0)
        && (low & 0x80 != 0) == (s8 & 0x4000 != 0)
        && (low & 0x40 != 0) == (s9 & 0x4000 != 0)
        && (low & 0x20 != 0) == (s10 & 0x4000 != 0)
        && (low & 0x10 != 0) == (s11 & 0x4000 != 0)
        && (low & 0x08 != 0) == (s12 & 0x4000 != 0)
        && (low & 0x04 != 0) == (s13 & 0x4000 != 0)
        && (low & 0x02 != 0) == (s14 & 0x4000 != 0)
        && (low & 0x01 != 0) == (s15 & 0x4000 != 0)
        && s16 == 0) by (bit_vector)
        requires
            rest < 0x8000,
            code == rest << 1,
            high == (code >> 8) as u8,
            low == code as u8,
            s1 == (rest << 1) & 0x7FFF,
            s2 == (s1 << 1) & 0x7FFF,
            s3 == (s2 << 1) & 0x7FFF,
            s4 == (s3 << 1) & 0x7FFF,
            s5 == (s4 << 1) & 0x7FFF,
            s6 == (s5 << 1) & 0x7FFF,
            s7 == (s6 << 1) & 0x7FFF,
            s8 == (s7 << 1) & 0x7FFF,
            s9 == (s8 << 1) & 0x7FFF,
            s10 == (s9 << 1) & 0x7FFF,
            s11 == (s10 << 1) & 0x7FFF,
            s12 == (s11 << 1) & 0x7FFF,
            s13 == (s12 << 1) & 0x7FFF,
            s14 == (s13 << 1) & 0x7FFF,
            s15 == (s14 << 1) & 0x7FFF,
            s16 == (s15 << 1) & 0x7FFF,
    ;
    assert(middle == s8);
    let last = lemma_byte_as_bits(middle, low);
    assert(last.6 == s15);
}

} // verus!
