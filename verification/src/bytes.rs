//! Big-endian numbers, as the registers hold them.
use vstd::prelude::*;

verus! {

/// The number of values that `n` bytes can hold.
pub open spec fn span(n: nat) -> int
    decreases n,
{
    if n == 0 {
        1
    } else {
        256 * span((n - 1) as nat)
    }
}

/// The unsigned number that `bytes` hold, most significant byte first.
pub open spec fn unsigned(bytes: Seq<u8>) -> nat
    decreases bytes.len(),
{
    if bytes.len() == 0 {
        0
    } else {
        256 * unsigned(bytes.drop_last()) + bytes.last() as nat
    }
}

/// The two's-complement number that `bytes` hold, most significant byte first.
pub open spec fn signed(bytes: Seq<u8>) -> int {
    if bytes.len() > 0 && bytes[0] >= 0x80 {
        unsigned(bytes) - span(bytes.len())
    } else {
        unsigned(bytes) as int
    }
}

/// The `n` bytes that hold `value`, most significant byte first; a negative number is held
/// in two's complement.
pub open spec fn encoded(value: int, n: nat) -> Seq<u8>
    decreases n,
{
    if n == 0 {
        Seq::empty()
    } else {
        encoded(value / 256, (n - 1) as nat).push((value % 256) as u8)
    }
}

/// Whether `value` fits in `n` bytes as a two's-complement number.
pub open spec fn fits_signed(value: int, n: nat) -> bool {
    -span(n) <= 2 * value < span(n)
}

proof fn lemma_span_values()
    ensures
        span(1) == 0x100,
        span(2) == 0x1_0000,
        span(3) == 0x100_0000,
        span(4) == 0x1_0000_0000,
        span(5) == 0x100_0000_0000,
        span(6) == 0x1_0000_0000_0000,
        span(7) == 0x100_0000_0000_0000,
        span(8) == 0x1_0000_0000_0000_0000,
{
    reveal_with_fuel(span, 9);
}

proof fn lemma_span_grows(small: nat, large: nat)
    requires
        small <= large,
    ensures
        0 < span(small) <= span(large),
    decreases large,
{
    if small < large {
        lemma_span_grows(small, (large - 1) as nat);
    } else if large > 0 {
        lemma_span_grows((small - 1) as nat, (large - 1) as nat);
    }
}

/// The first byte splits the range of the numbers that `bytes` can hold.
proof fn lemma_first_byte(bytes: Seq<u8>)
    requires
        bytes.len() > 0,
    ensures
        bytes[0] * span((bytes.len() - 1) as nat) <= unsigned(bytes) < (bytes[0] + 1) * span((bytes.len() - 1) as nat),
    decreases bytes.len(),
{
    let front = bytes.drop_last();
    let n = front.len();
    let first = bytes[0] as int;
    if n == 0 {
        assert(unsigned(front) == 0);
        assert(span(0) == 1);
    } else {
        lemma_first_byte(front);
        let s = span((n - 1) as nat);
        let u = unsigned(front) as int;
        assert(span(n) == 256 * s);
        assert(front[0] == bytes[0]);
        assert(first * (256 * s) == 256 * (first * s)) by (nonlinear_arith);
        assert((first + 1) * (256 * s) == 256 * ((first + 1) * s)) by (nonlinear_arith);
    }
}

/// An unsigned number of `n` bytes is below the number of values that they can hold.
pub proof fn unsigned_in_range(bytes: Seq<u8>)
    ensures
        unsigned(bytes) < span(bytes.len()),
    decreases bytes.len(),
{
    if bytes.len() > 0 {
        unsigned_in_range(bytes.drop_last());
    }
}

/// The bytes of a number only depend on it up to multiples of the number of values that
/// they can hold.
proof fn lemma_encoded_wraps(value: int, n: nat, turns: int)
    ensures
        encoded(value + turns * span(n), n) == encoded(value, n),
    decreases n,
{
    if n > 0 {
        let s = span((n - 1) as nat);
        let other = value + turns * span(n);
        assert(other == value + 256 * (turns * s)) by (nonlinear_arith)
            requires
                other == value + turns * (256 * s),
        ;
        assert(other / 256 == value / 256 + turns * s);
        assert(other % 256 == value % 256);
        lemma_encoded_wraps(value / 256, (n - 1) as nat, turns);
    }
}

/// What is written as an unsigned number is read back as that number.
pub proof fn unsigned_round_trip(value: int, n: nat)
    requires
        0 <= value < span(n),
    ensures
        encoded(value, n).len() == n,
        unsigned(encoded(value, n)) == value,
    decreases n,
{
    if n > 0 {
        unsigned_round_trip(value / 256, (n - 1) as nat);
        let bytes = encoded(value, n);
        assert(bytes.drop_last() =~= encoded(value / 256, (n - 1) as nat));
    }
}

/// What is written as a two's-complement number is read back as that number.
pub proof fn signed_round_trip(value: int, n: nat)
    requires
        n > 0,
        fits_signed(value, n),
    ensures
        encoded(value, n).len() == n,
        signed(encoded(value, n)) == value,
{
    let s = span((n - 1) as nat);
    lemma_span_grows(0, (n - 1) as nat);
    let wrapped = if value < 0 {
        value + span(n)
    } else {
        value
    };
    assert(1 * span(n) == span(n));
    lemma_encoded_wraps(value, n, 1);
    unsigned_round_trip(wrapped, n);
    let bytes = encoded(wrapped, n);
    assert(encoded(value, n) == bytes);
    lemma_first_byte(bytes);
    let first = bytes[0] as int;
    if first >= 0x80 {
        assert(0x80 * s <= first * s) by (nonlinear_arith)
            requires
                first >= 0x80,
                s > 0,
        ;
    } else {
        assert((first + 1) * s <= 0x80 * s) by (nonlinear_arith)
            requires
                first < 0x80,
                s > 0,
        ;
    }
}

/// What is read as an unsigned number is written as the same bytes.
pub proof fn bytes_of_unsigned(bytes: Seq<u8>)
    ensures
        encoded(unsigned(bytes) as int, bytes.len()) == bytes,
    decreases bytes.len(),
{
    if bytes.len() > 0 {
        bytes_of_unsigned(bytes.drop_last());
        assert(bytes =~= bytes.drop_last().push(bytes.last()));
    } else {
        assert(bytes =~= Seq::empty());
    }
}

/// What is read as a two's-complement number is written as the same bytes, and fits in them.
pub proof fn bytes_of_signed(bytes: Seq<u8>)
    requires
        bytes.len() > 0,
    ensures
        fits_signed(signed(bytes), bytes.len()),
        encoded(signed(bytes), bytes.len()) == bytes,
{
    let n = bytes.len();
    let s = span((n - 1) as nat);
    lemma_span_grows(0, (n - 1) as nat);
    lemma_first_byte(bytes);
    unsigned_in_range(bytes);
    bytes_of_unsigned(bytes);
    lemma_encoded_wraps(signed(bytes), n, 1);
    assert(1 * span(n) == span(n));
    let first = bytes[0] as int;
    if first >= 0x80 {
        assert(0x80 * s <= first * s) by (nonlinear_arith)
            requires
                first >= 0x80,
                s > 0,
        ;
    } else {
        assert((first + 1) * s <= 0x80 * s) by (nonlinear_arith)
            requires
                first < 0x80,
                s > 0,
        ;
    }
}

/// One byte of data.
pub fn single(byte: u8) -> (bytes: [u8; 1])
    ensures
        bytes@ == seq![byte],
{
    let bytes = [byte];
    proof {
        assert(bytes@ =~= seq![byte]);
    }
    bytes
}

/// Two bytes of data.
pub fn double(first: u8, second: u8) -> (bytes: [u8; 2])
    ensures
        bytes@ == seq![first, second],
{
    let bytes = [first, second];
    proof {
        assert(bytes@ =~= seq![first, second]);
    }
    bytes
}

/// Reads an unsigned number of up to eight bytes, most significant byte first.
pub fn unsigned_from_be(bytes: &[u8]) -> (value: u64)
    requires
        bytes@.len() <= 8,
    ensures
        value == unsigned(bytes@),
{
    let mut value: u64 = 0;
    let mut i: usize = 0;
    while i < bytes.len()
        invariant
            i <= bytes@.len() <= 8,
            value == unsigned(bytes@.take(i as int)),
        decreases bytes@.len() - i,
    {
        proof {
            let done = bytes@.take(i + 1);
            assert(done.drop_last() =~= bytes@.take(i as int));
            unsigned_in_range(done);
            lemma_span_values();
            lemma_span_grows((i + 1) as nat, 8);
        }
        value = value * 256 + bytes[i] as u64;
        i = i + 1;
    }
    proof {
        assert(bytes@.take(i as int) =~= bytes@);
    }
    value
}

/// Reads a two's-complement number of one to eight bytes, most significant byte first.
pub fn signed_from_be(bytes: &[u8]) -> (value: i64)
    requires
        0 < bytes@.len() <= 8,
    ensures
        value == signed(bytes@),
        fits_signed(value as int, bytes@.len()),
{
    let raw = unsigned_from_be(bytes);
    proof {
        bytes_of_signed(bytes@);
        lemma_span_values();
        lemma_span_grows(bytes@.len(), 8);
    }
    if bytes[0] < 0x80 {
        raw as i64
    } else {
        let mut values: i128 = 1;
        let mut i: usize = 0;
        while i < bytes.len()
            invariant
                i <= bytes@.len() <= 8,
                values == span(i as nat),
            decreases bytes@.len() - i,
        {
            proof {
                lemma_span_values();
                lemma_span_grows((i + 1) as nat, 8);
            }
            values = values * 256;
            i = i + 1;
        }
        (raw as i128 - values) as i64
    }
}

/// Writes the low `n` bytes of an unsigned number, most significant byte first.
pub fn unsigned_to_be(value: u64, n: usize) -> (bytes: Vec<u8>)
    ensures
        bytes@ == encoded(value as int, n as nat),
        bytes@.len() == n,
    decreases n,
{
    if n == 0 {
        Vec::new()
    } else {
        let mut bytes = unsigned_to_be(value / 256, n - 1);
        bytes.push((value % 256) as u8);
        bytes
    }
}

/// Writes the low `n` bytes of a two's-complement number, most significant byte first.
pub fn signed_to_be(value: i64, n: usize) -> (bytes: Vec<u8>)
    requires
        n <= 8,
    ensures
        bytes@ == encoded(value as int, n as nat),
        bytes@.len() == n,
{
    if value >= 0 {
        unsigned_to_be(value as u64, n)
    } else {
        let wrapped: u64 = (value as i128 + 0x1_0000_0000_0000_0000) as u64;
        proof {
            lemma_span_values();
            lemma_whole_turns(n as nat);
            let turns = span((8 - n) as nat);
            lemma_encoded_wraps(value as int, n as nat, turns);
        }
        unsigned_to_be(wrapped, n)
    }
}

/// Eight bytes hold a whole multiple of the values that fewer bytes hold.
proof fn lemma_whole_turns(n: nat)
    requires
        n <= 8,
    ensures
        span((8 - n) as nat) * span(n) == span(8),
    decreases 8 - n,
{
    if n < 8 {
        lemma_whole_turns(n + 1);
        let a = span((7 - n) as nat);
        let b = span(n);
        assert((256 * a) * b == a * (256 * b)) by (nonlinear_arith);
    } else {
        assert(span(0) == 1);
    }
}

/// The first byte of an unsigned number weighs most: a byte in front of others counts as often as
/// there are numbers in these.
pub proof fn bytes_weigh_by_position(first: u8, rest: Seq<u8>)
    ensures
        unsigned(seq![first] + rest) == first * span(rest.len()) + unsigned(rest),
        unsigned(seq![first]) == first,
        unsigned(Seq::empty()) == 0,
    decreases rest.len(),
{
    reveal_with_fuel(unsigned, 2);
    let all = seq![first] + rest;
    assert(seq![first].drop_last() =~= Seq::<u8>::empty());
    if rest.len() == 0 {
        assert(all =~= seq![first]);
        assert(rest =~= Seq::empty());
    } else {
        bytes_weigh_by_position(first, rest.drop_last());
        assert(all.drop_last() =~= seq![first] + rest.drop_last());
        assert(all.last() == rest.last());
        let s = span((rest.len() - 1) as nat);
        assert(span(rest.len()) == 256 * s);
        assert((first * s) * 256 == first * (256 * s)) by (nonlinear_arith);
    }
}

/// A two's-complement number is the one of its width that differs from the unsigned number of the
/// same bytes by nothing or by the span of these.
pub proof fn signed_numbers_wrap(bytes: Seq<u8>)
    requires
        bytes.len() > 0,
    ensures
        fits_signed(signed(bytes), bytes.len()),
        signed(bytes) == unsigned(bytes) || signed(bytes) == unsigned(bytes) - span(bytes.len()),
{
    lemma_first_byte(bytes);
    unsigned_in_range(bytes);
    let s = span((bytes.len() - 1) as nat);
    let first = bytes[0] as int;
    lemma_span_grows(0, (bytes.len() - 1) as nat);
    if first >= 0x80 {
        assert(first * s >= 0x80 * s) by (nonlinear_arith)
            requires
                first >= 0x80,
                s > 0,
        ;
    } else {
        assert((first + 1) * s <= 0x80 * s) by (nonlinear_arith)
            requires
                first < 0x80,
                s > 0,
        ;
    }
}

/// One byte holds 2^8 numbers, and each further one 2^8 times as many.
pub proof fn spans_are_powers()
    ensures
        span(0) == 1,
        span(1) == 0x100,
        span(2) == 0x1_0000,
        span(3) == 0x100_0000,
        span(4) == 0x1_0000_0000,
        span(6) == 0x1_0000_0000_0000,
        span(8) == 0x1_0000_0000_0000_0000,
{
    lemma_span_values();
}

} // verus!
