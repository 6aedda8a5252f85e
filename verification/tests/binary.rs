//! The arithmetic on bit patterns against that of the machine.
use ltc2949::binary::{Binary32, Binary64};

/// A small linear congruential generator, so that every run sees the same patterns.
struct Patterns {
    state: u64,
}

impl Patterns {
    fn new() -> Self {
        Patterns {
            state: 0x2949_2949_2949_2949,
        }
    }

    fn next(&mut self) -> u64 {
        self.state = self.state.wrapping_mul(6364136223846793005).wrapping_add(1442695040888963407);
        self.state ^ (self.state >> 29)
    }

    fn pattern_32(&mut self) -> u32 {
        let bits = self.next();
        match bits % 8 {
            0 => SPECIAL_32[(bits >> 8) as usize % SPECIAL_32.len()],
            // Exponents that are close together, so that sums cancel.
            1 | 2 => 0x4000_0000 ^ ((bits >> 16) as u32 & 0x8FFF_FFFF),
            _ => (bits >> 16) as u32,
        }
    }

    fn pattern_64(&mut self) -> u64 {
        let bits = self.next();
        match bits % 8 {
            0 => SPECIAL_64[(bits >> 8) as usize % SPECIAL_64.len()],
            1 | 2 => 0x3FF0_0000_0000_0000 ^ (self.next() & 0x801F_FFFF_FFFF_FFFF),
            _ => self.next(),
        }
    }
}

const SPECIAL_32: [u32; 12] = [
    0x0000_0000,
    0x8000_0000,
    0x0000_0001,
    0x007F_FFFF,
    0x0080_0000,
    0x7F7F_FFFF,
    0x7F80_0000,
    0xFF80_0000,
    0x7FC0_0000,
    0x3F80_0000,
    0xBF80_0000,
    0x8080_0001,
];

const SPECIAL_64: [u64; 12] = [
    0x0000_0000_0000_0000,
    0x8000_0000_0000_0000,
    0x0000_0000_0000_0001,
    0x000F_FFFF_FFFF_FFFF,
    0x0010_0000_0000_0000,
    0x7FEF_FFFF_FFFF_FFFF,
    0x7FF0_0000_0000_0000,
    0xFFF0_0000_0000_0000,
    0x7FF8_0000_0000_0000,
    0x3FF0_0000_0000_0000,
    0xBFF0_0000_0000_0000,
    0x8010_0000_0000_0001,
];

fn same_32(expected: f32, actual: Binary32) -> bool {
    if expected.is_nan() {
        actual.is_nan()
    } else {
        expected.to_bits() == actual.to_bits()
    }
}

fn same_64(expected: f64, actual: Binary64) -> bool {
    if expected.is_nan() {
        actual.is_nan()
    } else {
        expected.to_bits() == actual.to_bits()
    }
}

#[test]
fn binary32_operations_match_the_machine() {
    let mut patterns = Patterns::new();
    for _ in 0..60_000 {
        let a = patterns.pattern_32();
        let b = patterns.pattern_32();
        let (x, y) = (f32::from_bits(a), f32::from_bits(b));
        let (p, q) = (Binary32::from_bits(a), Binary32::from_bits(b));
        assert!(same_32(x / y, p.divide(q)), "{a:#x} / {b:#x}");
        assert!(same_32(x * y, p.multiply(q)), "{a:#x} * {b:#x}");
        assert!(same_32(x + y, p.plus(q)), "{a:#x} + {b:#x}");
        assert!(same_32(x - y, p.plus(q.negate())), "{a:#x} - {b:#x}");
        assert!(same_64(x as f64, p.widen()), "{a:#x} widened");
        assert_eq!(x.is_finite(), p.is_finite());
        assert_eq!(x.is_nan(), p.is_nan());
        assert_eq!(x.is_finite() && x > 0.0, p.is_positive());
        assert!(same_32(a as i32 as f32, Binary32::from_integer(a as i32)), "{a:#x} from integer");
    }
}

#[test]
fn binary64_operations_match_the_machine() {
    let mut patterns = Patterns::new();
    for _ in 0..60_000 {
        let a = patterns.pattern_64();
        let b = patterns.pattern_64();
        let (x, y) = (f64::from_bits(a), f64::from_bits(b));
        let (p, q) = (Binary64::from_bits(a), Binary64::from_bits(b));
        assert!(same_64(x / y, p.divide(q)), "{a:#x} / {b:#x}");
        assert!(same_64(x * y, p.multiply(q)), "{a:#x} * {b:#x}");
        assert_eq!(x > y, p.is_above(q), "{a:#x} > {b:#x}");
        assert_eq!(x.is_finite(), p.is_finite());
        assert_eq!(x.is_nan(), p.is_nan());
        assert_eq!(x.is_finite() && x > 0.0, p.is_positive());
        if x.is_finite() {
            assert_eq!(x < 0.0, p.is_below_zero());
        }
        assert!(same_64(a as i64 as f64, Binary64::from_integer(a as i64)), "{a:#x} from integer");
    }
}

#[test]
fn nearest_integer_rounds_halves_away_from_zero() {
    let nearest = |value: f64| Binary64::from_bits(value.to_bits()).nearest_integer();
    assert_eq!(Some(0), nearest(0.0));
    assert_eq!(Some(0), nearest(-0.0));
    assert_eq!(Some(0), nearest(f64::MIN_POSITIVE));
    assert_eq!(Some(0), nearest(0.49999999999999994));
    assert_eq!(Some(1), nearest(0.5));
    assert_eq!(Some(-1), nearest(-0.5));
    assert_eq!(Some(3), nearest(2.5));
    assert_eq!(Some(-3), nearest(-2.5));
    assert_eq!(Some(2251799813685249), nearest(2251799813685248.5));
    assert_eq!(Some(4503599627370497), nearest(4503599627370497.0));
    assert_eq!(Some(1i128 << 63), nearest(9223372036854775808.0));
    assert_eq!(None, nearest(18446744073709551616.0));
    assert_eq!(None, nearest(f64::INFINITY));
    assert_eq!(None, nearest(f64::NAN));
}

#[test]
fn nearest_integer_matches_the_machine() {
    let mut patterns = Patterns::new();
    for _ in 0..60_000 {
        let bits = patterns.next();
        // Exponents around the integers that fit in 64 bits.
        let value = f64::from_bits((bits & 0x800F_FFFF_FFFF_FFFF) | ((1000 + (bits >> 52) % 90) << 52));
        let expected = if value.abs() < 18446744073709551616.0 {
            Some(value.round() as i128)
        } else {
            None
        };
        assert_eq!(expected, Binary64::from_bits(value.to_bits()).nearest_integer(), "{value}");
    }
}

#[test]
fn widening_is_exact_for_subnormal_numbers() {
    for bits in [1u32, 2, 3, 0x1234, 0x007F_FFFF, 0x8000_0001] {
        let expected = f32::from_bits(bits) as f64;
        assert_eq!(expected.to_bits(), Binary32::from_bits(bits).widen().to_bits());
    }
}

#[test]
fn equality_is_that_of_the_numbers() {
    for (a, b) in [
        (0.0f32, -0.0f32),
        (1.0, 1.0),
        (1.0, -1.0),
        (f32::NAN, f32::NAN),
        (f32::NAN, 0.0),
        (f32::INFINITY, f32::INFINITY),
        (f32::INFINITY, f32::NEG_INFINITY),
        (f32::MIN_POSITIVE, 0.0),
    ] {
        let p = Binary32::from_bits(a.to_bits());
        let q = Binary32::from_bits(b.to_bits());
        assert_eq!(a == b, p == q, "{a} {b}");
        let p = Binary64::from_bits((a as f64).to_bits());
        let q = Binary64::from_bits((b as f64).to_bits());
        assert_eq!(a == b, p == q, "{a} {b}");
    }
}
