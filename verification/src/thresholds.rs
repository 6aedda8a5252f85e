//! Register codes of the PAGE1 thresholds, and of the ratios for gain corrections.
//!
//! A threshold is a physical value. It is divided by what one register code stands for, its
//! LSB, and the quotient is rounded to the nearest code. Everything that makes a threshold
//! invalid is refused.
use vstd::prelude::*;

use crate::binary::{Binary32, Binary64};
use crate::measurements::{AccumulatedCharge, AccumulatedEnergy, AccumulatedTime, DieTemperature};

verus! {

/// Charge accumulator selected for a PAGE1 threshold write.
#[derive(Copy, Clone, Eq, PartialEq, Structural, Debug)]
pub enum ChargeAccumulator {
    Charge1,
    Charge2,
    /// Weighted sum of channels 1 and 2; its SI conversion uses the channel-1 shunt.
    Charge3,
}

/// Energy accumulator selected for a PAGE1 threshold write.
#[derive(Copy, Clone, Eq, PartialEq, Structural, Debug)]
pub enum EnergyAccumulator {
    Energy1,
    Energy2,
    /// Weighted sum of channels 1 and 2; its SI conversion uses the channel-1 shunt.
    Energy4,
}

/// Time-base accumulator selected for a PAGE1 threshold write.
#[derive(Copy, Clone, Eq, PartialEq, Structural, Debug)]
pub enum TimeBase {
    Time1,
    Time2,
    Time3,
    Time4,
}

/// Clock configuration used to scale accumulated charge, energy, and time thresholds.
///
/// [`Internal`](Self::Internal) also covers a 4 MHz crystal with the datasheet's `PRE = 2`,
/// `DIV = 30` settings (Table 26). The external-clock formula follows Table 27.
#[derive(Copy, Clone, Debug)]
pub enum AccumulatorClock {
    Internal,
    External {
        /// External clock frequency in hertz.
        frequency_hz: Binary64,
        /// PRE field value (0-7).
        pre: u8,
        /// DIV field value (0-31).
        div: u8,
    },
}

impl PartialEq for AccumulatorClock {
    fn eq(&self, other: &Self) -> (equal: bool) {
        match (self, other) {
            (AccumulatorClock::Internal, AccumulatorClock::Internal) => true,
            (
                AccumulatorClock::External { frequency_hz: f1, pre: p1, div: d1 },
                AccumulatorClock::External { frequency_hz: f2, pre: p2, div: d2 },
            ) => *f1 == *f2 && *p1 == *p2 && *d1 == *d2,
            _ => false,
        }
    }
}

impl vstd::std_specs::cmp::PartialEqSpecImpl for AccumulatorClock {
    open spec fn obeys_eq_spec() -> bool {
        true
    }

    open spec fn eq_spec(&self, other: &Self) -> bool {
        match (*self, *other) {
            (AccumulatorClock::Internal, AccumulatorClock::Internal) => true,
            (
                AccumulatorClock::External { frequency_hz: f1, pre: p1, div: d1 },
                AccumulatorClock::External { frequency_hz: f2, pre: p2, div: d2 },
            ) => vstd::std_specs::cmp::PartialEqSpec::eq_spec(&f1, &f2) && p1 == p2 && d1 == d2,
            _ => false,
        }
    }
}

impl Default for AccumulatorClock {
    fn default() -> (clock: Self)
        ensures
            clock == AccumulatorClock::Internal,
    {
        AccumulatorClock::Internal
    }
}

impl AccumulatorClock {
    /// Whether the clock can be configured: an external one needs a positive finite
    /// frequency, and divider fields that fit in the register.
    pub open spec fn spec_is_valid(self) -> bool {
        match self {
            AccumulatorClock::Internal => true,
            AccumulatorClock::External { frequency_hz, pre, div } => frequency_hz.spec_is_positive() && pre <= 7 && div <= 31,
        }
    }

    /// Whether the clock can be configured.
    #[verifier::when_used_as_spec(spec_is_valid)]
    pub fn is_valid(self) -> (valid: bool)
        ensures
            valid == self.spec_is_valid(),
    {
        match self {
            AccumulatorClock::Internal => true,
            AccumulatorClock::External { frequency_hz, pre, div } => frequency_hz.is_positive() && pre <= 7 && div <= 31,
        }
    }
}

/// What one accumulator code stands for, per `2^PRE * (DIV + 1)` over the frequency of an
/// external clock (datasheet Table 27), as binary64 bits: 1.21899e-5 V for charge.
pub const EXTERNAL_CHARGE_SCALE: u64 = 0x3EE9_9067_1953_5E02;

/// The same for energy: 7.4895e-5 V^2.
pub const EXTERNAL_ENERGY_SCALE: u64 = 0x3F13_A21E_4D72_FA73;

/// The same for time: 12.8315.
pub const EXTERNAL_TIME_SCALE: u64 = 0x4029_A9BA_5E35_3F7D;

/// The LSBs of the charge, energy and time accumulators, before the shunt is applied.
#[derive(Copy, Clone, Debug)]
pub struct AccumulatorLsbs {
    pub charge: Binary64,
    pub energy: Binary64,
    pub time: Binary64,
}

impl PartialEq for AccumulatorLsbs {
    fn eq(&self, other: &Self) -> (equal: bool) {
        self.charge == other.charge && self.energy == other.energy && self.time == other.time
    }
}

impl vstd::std_specs::cmp::PartialEqSpecImpl for AccumulatorLsbs {
    open spec fn obeys_eq_spec() -> bool {
        true
    }

    open spec fn eq_spec(&self, other: &Self) -> bool {
        &&& vstd::std_specs::cmp::PartialEqSpec::eq_spec(&self.charge, &other.charge)
        &&& vstd::std_specs::cmp::PartialEqSpec::eq_spec(&self.energy, &other.energy)
        &&& vstd::std_specs::cmp::PartialEqSpec::eq_spec(&self.time, &other.time)
    }
}

/// The factor by which an external clock is divided.
pub open spec fn divider(pre: u8, div: u8) -> nat {
    (crate::rounding::power(pre as nat) * (div + 1)) as nat
}

/// The LSBs of the accumulators under `clock`, if the clock can be configured.
pub open spec fn lsbs_under(clock: AccumulatorClock) -> Option<AccumulatorLsbs> {
    match clock {
        AccumulatorClock::Internal => Some(
            AccumulatorLsbs {
                charge: Binary64 { bits: AccumulatedCharge::LSB_VOLT_SECONDS },
                energy: Binary64 { bits: AccumulatedEnergy::LSB_VOLT_SQUARED_SECONDS },
                time: Binary64 { bits: AccumulatedTime::LSB_SECONDS },
            },
        ),
        AccumulatorClock::External { frequency_hz, pre, div } => if clock.is_valid() {
            let factor = Binary64::of_integer(divider(pre, div) as int).quotient(frequency_hz);
            Some(
                AccumulatorLsbs {
                    charge: (Binary64 { bits: EXTERNAL_CHARGE_SCALE }).product(factor),
                    energy: (Binary64 { bits: EXTERNAL_ENERGY_SCALE }).product(factor),
                    time: (Binary64 { bits: EXTERNAL_TIME_SCALE }).product(factor),
                },
            )
        } else {
            None
        },
    }
}

/// The LSBs of the accumulators under `clock`, if the clock can be configured.
pub fn accumulator_lsbs(clock: AccumulatorClock) -> (lsbs: Option<AccumulatorLsbs>)
    ensures
        lsbs == lsbs_under(clock),
{
    if !clock.is_valid() {
        return None;
    }
    match clock {
        AccumulatorClock::Internal => Some(
            AccumulatorLsbs {
                charge: Binary64::from_bits(AccumulatedCharge::LSB_VOLT_SECONDS),
                energy: Binary64::from_bits(AccumulatedEnergy::LSB_VOLT_SQUARED_SECONDS),
                time: Binary64::from_bits(AccumulatedTime::LSB_SECONDS),
            },
        ),
        AccumulatorClock::External { frequency_hz, pre, div } => {
            let prescaler: i64 = match pre {
                0 => 1,
                1 => 2,
                2 => 4,
                3 => 8,
                4 => 16,
                5 => 32,
                6 => 64,
                _ => 128,
            };
            proof {
                vstd::arithmetic::power2::lemma2_to64();
                assert(prescaler == crate::rounding::power(pre as nat));
                assert(0 <= prescaler * (div + 1) <= 128 * 32) by (nonlinear_arith)
                    requires
                        0 <= prescaler <= 128,
                        div <= 31,
                ;
            }
            let factor = Binary64::from_integer(prescaler * (div as i64 + 1)).divide(frequency_hz);
            Some(
                AccumulatorLsbs {
                    charge: Binary64::from_bits(EXTERNAL_CHARGE_SCALE).multiply(factor),
                    energy: Binary64::from_bits(EXTERNAL_ENERGY_SCALE).multiply(factor),
                    time: Binary64::from_bits(EXTERNAL_TIME_SCALE).multiply(factor),
                },
            )
        },
    }
}

/// A clock has LSBs exactly if it can be configured: the internal one always, an external one with
/// a frequency above zero and below the infinity, three prescaler bits and five divider bits.
pub proof fn sound_clocks_have_lsbs(clock: AccumulatorClock)
    ensures
        lsbs_under(clock) is Some <==> (clock matches AccumulatorClock::External { frequency_hz, pre, div } ==> 0
            < frequency_hz.bits < 0x7FF0_0000_0000_0000 && pre < 8 && div < 32),
{
    crate::rounding::zero_has_no_magnitude(
        match clock {
            AccumulatorClock::External { frequency_hz, .. } => frequency_hz.pattern(),
            AccumulatorClock::Internal => 0,
        },
        52,
    );
}

/// Each prescaler step doubles the divider, which without one is the divider field and one.
pub proof fn prescaler_doubles_the_divider(pre: u8, div: u8)
    requires
        pre < 7,
    ensures
        divider(0, div) == div + 1,
        divider((pre + 1) as u8, div) == 2 * divider(pre, div),
{
    vstd::arithmetic::power2::lemma2_to64();
    vstd::arithmetic::power2::lemma_pow2_unfold((pre + 1) as nat);
    let half = crate::rounding::power(pre as nat) as int;
    assert((2 * half) * (div + 1) == 2 * (half * (div + 1))) by (nonlinear_arith);
    assert(1 * (div + 1) == div + 1);
    assert(crate::rounding::power(0) == 1);
    assert(divider(0, div) == 1 * (div + 1)) by (nonlinear_arith)
        requires
            divider(0, div) == crate::rounding::power(0) * (div + 1),
            crate::rounding::power(0) == 1,
    ;
}

/// Whether `value` is the quotient of `dividend` and `divisor`, but for one rounding.
pub open spec fn is_quotient(value: Binary64, dividend: Binary64, divisor: Binary64) -> bool {
    let gap = dividend.units() * crate::rounding::power(1074) - value.units() * divisor.units();
    let bound = value.size() * divisor.size() + crate::rounding::power(52) * divisor.size();
    -bound <= 2 * crate::rounding::power(52) * gap <= bound
}

/// Whether `value` is the product of `first` and `second`, but for one rounding.
pub open spec fn is_product(value: Binary64, first: Binary64, second: Binary64) -> bool {
    let one = crate::rounding::power(1074);
    let gap = first.units() * second.units() - value.units() * one;
    let bound = value.size() * one + crate::rounding::power(52) * one;
    -bound <= 2 * crate::rounding::power(52) * gap <= bound
}

/// Under an external clock each LSB is its scale times a factor, which is `2^PRE * (DIV + 1)` over
/// the frequency; each but for one rounding.
pub proof fn external_lsbs_follow_the_clock(frequency_hz: Binary64, pre: u8, div: u8)
    requires
        (AccumulatorClock::External { frequency_hz, pre, div }).is_valid(),
        ({
            let lsbs = lsbs_under(AccumulatorClock::External { frequency_hz, pre, div })->0;
            lsbs.charge.is_finite() && lsbs.energy.is_finite() && lsbs.time.is_finite()
        }),
    ensures
        exists|factor: Binary64, count: Binary64|
            #![trigger factor.units(), count.units()]
            {
                let lsbs = lsbs_under(AccumulatorClock::External { frequency_hz, pre, div })->0;
                &&& count.units() == crate::rounding::power(pre as nat) * (div + 1) * crate::rounding::power(1074)
                &&& is_quotient(factor, count, frequency_hz)
                &&& is_product(lsbs.charge, Binary64 { bits: EXTERNAL_CHARGE_SCALE }, factor)
                &&& is_product(lsbs.energy, Binary64 { bits: EXTERNAL_ENERGY_SCALE }, factor)
                &&& is_product(lsbs.time, Binary64 { bits: EXTERNAL_TIME_SCALE }, factor)
            },
{
    let count = Binary64::of_integer(divider(pre, div) as int);
    let factor = count.quotient(frequency_hz);
    vstd::arithmetic::power2::lemma2_to64();
    crate::rounding::lemma_power_grows(pre as nat, 7);
    let prescaler = crate::rounding::power(pre as nat) as int;
    assert(0 <= prescaler * (div + 1) <= 128 * 32) by (nonlinear_arith)
        requires
            0 <= prescaler <= 128,
            div <= 31,
    ;
    crate::binary::small_integers_are_exact_64(divider(pre, div) as int);
    crate::rounding::zero_has_no_magnitude(frequency_hz.pattern(), 52);
    crate::rounding::zero_has_no_magnitude(EXTERNAL_CHARGE_SCALE as nat, 52);
    assert(factor.is_finite());
    crate::binary::quotient_is_close_64(count, frequency_hz);
    crate::binary::product_is_close_64(Binary64 { bits: EXTERNAL_CHARGE_SCALE }, factor);
    crate::binary::product_is_close_64(Binary64 { bits: EXTERNAL_ENERGY_SCALE }, factor);
    crate::binary::product_is_close_64(Binary64 { bits: EXTERNAL_TIME_SCALE }, factor);
    assert(count.units() == prescaler * (div + 1) * crate::rounding::power(1074));
    let at = factor.units();
}

/// 4 MHz, as binary64 bits.
pub const FOUR_MEGAHERTZ: u64 = 0x414E_8480_0000_0000;

/// The 4 MHz crystal with the datasheet's `PRE = 2`, `DIV = 30` settings (Table 26).
pub open spec fn crystal() -> AccumulatorClock {
    AccumulatorClock::External { frequency_hz: Binary64 { bits: FOUR_MEGAHERTZ }, pre: 2, div: 30 }
}

/// Whether two positive numbers differ by at most one part in 100,000 of the second.
pub open spec fn agrees(first: Binary64, second: Binary64) -> bool {
    &&& first.is_positive()
    &&& second.is_positive()
    &&& -second.units() <= 100_000 * (first.units() - second.units()) <= second.units()
}

/// The internal clock also covers the 4 MHz crystal: the LSBs of the three accumulators agree to
/// one part in 100,000.
pub proof fn internal_clock_covers_the_crystal()
    ensures
        lsbs_under(crystal()) matches Some(external) && lsbs_under(AccumulatorClock::Internal) matches Some(internal)
            && agrees(external.charge, internal.charge) && agrees(external.energy, internal.energy) && agrees(
            external.time,
            internal.time,
        ),
{
    vstd::arithmetic::power2::lemma2_to64();
    crate::rounding::zero_has_no_magnitude(FOUR_MEGAHERTZ as nat, 52);
    assert(EXTERNAL_CHARGE_SCALE % 0x10_0000_0000_0000 == 0x9_9067_1953_5E02);
    assert(EXTERNAL_ENERGY_SCALE % 0x10_0000_0000_0000 == 0x3_A21E_4D72_FA73);
    assert(EXTERNAL_TIME_SCALE % 0x10_0000_0000_0000 == 0x9_A9BA_5E35_3F7D);
    assert(AccumulatedCharge::LSB_VOLT_SECONDS % 0x10_0000_0000_0000 == 0x9_F7DB_C09C_8296);
    assert(AccumulatedEnergy::LSB_VOLT_SQUARED_SECONDS % 0x10_0000_0000_0000 == 0x3_F195_0DEA_4533);
    assert(AccumulatedTime::LSB_SECONDS % 0x10_0000_0000_0000 == 0xA_1197_34C3_08DC);
    lemma_scaled_by_crystal(EXTERNAL_CHARGE_SCALE, AccumulatedCharge::LSB_VOLT_SECONDS);
    lemma_scaled_by_crystal(EXTERNAL_ENERGY_SCALE, AccumulatedEnergy::LSB_VOLT_SQUARED_SECONDS);
    lemma_scaled_by_crystal(EXTERNAL_TIME_SCALE, AccumulatedTime::LSB_SECONDS);
    assert(crate::rounding::power(2) == 4);
    assert(divider(2, 30) == 124);
}

/// The size of a normal binary64 number.
proof fn lemma_normal_size(bits: u64)
    requires
        0x10_0000_0000_0000 <= bits < crate::binary::INFINITY_64,
    ensures
        (Binary64 { bits }).is_positive(),
        (Binary64 { bits }).size() == (0x10_0000_0000_0000 + bits % 0x10_0000_0000_0000) * crate::rounding::power(
            (bits / 0x10_0000_0000_0000 - 1) as nat,
        ),
{
    vstd::arithmetic::power2::lemma2_to64_rest();
    crate::rounding::zero_has_no_magnitude(bits as nat, 52);
}

/// The divider of the crystal over its frequency: close to 124 over four million.
proof fn lemma_crystal_factor() -> (factor: Binary64)
    ensures
        factor == Binary64::of_integer(124).quotient(Binary64 { bits: FOUR_MEGAHERTZ }),
        factor.is_positive(),
        crate::rounding::power(1058) <= factor.size() <= crate::rounding::power(1060),
        ({
            let exact = 124 * crate::rounding::power(1074);
            let size = 4_000_000 * factor.size();
            -size <= 0x20_0000_0000_0000 * (exact - size) <= size
        }),
{
    vstd::arithmetic::power2::lemma2_to64();
    vstd::arithmetic::power2::lemma2_to64_rest();
    vstd::arithmetic::power2::lemma_pow2_pos(1058);
    vstd::arithmetic::power2::lemma_pow2_adds(31, 1043);
    vstd::arithmetic::power2::lemma_pow2_adds(1058, 16);
    vstd::arithmetic::power2::lemma_pow2_adds(1060, 14);
    let one = crate::rounding::power(1074) as int;
    let step = crate::rounding::power(1043) as int;
    let low = crate::rounding::power(1058) as int;
    let high = crate::rounding::power(1060) as int;
    let frequency = Binary64 { bits: FOUR_MEGAHERTZ };
    lemma_normal_size(FOUR_MEGAHERTZ);
    assert(frequency.size() == 4_000_000 * one) by {
        assert(FOUR_MEGAHERTZ / 0x10_0000_0000_0000 == 1044);
        assert(0x10_0000_0000_0000 + FOUR_MEGAHERTZ % 0x10_0000_0000_0000 == 4_000_000 * 0x8000_0000);
        assert((4_000_000 * 0x8000_0000) * step == 4_000_000 * (0x8000_0000 * step)) by (nonlinear_arith);
    }
    let integer = Binary64::of_integer(124);
    crate::rounding::few_bits_are_exact(124, 1074, 52, 2047);
    assert(2047 * crate::rounding::power(52) == crate::binary::INFINITY_64);
    assert(integer.size() == 124 * one);
    let num = (124 * one) * one;
    let den = 4_000_000 * one;
    assert(low * den <= num && num <= high * den && den > 0) by (nonlinear_arith)
        requires
            one == low * 0x1_0000,
            one == high * 0x4000,
            low > 0,
            num == (124 * one) * one,
            den == 4_000_000 * one,
    ;
    crate::rounding::rounding_between_powers(num as nat, den as nat, 1058, 1060, 52, 2047);
    let factor = integer.quotient(frequency);
    crate::rounding::zero_has_no_magnitude(integer.pattern(), 52);
    let size = factor.size() as int;
    assert(factor.pattern() == Binary64::rounded(num as nat, den as nat));
    assert(-(4_000_000 * size) <= 0x20_0000_0000_0000 * (124 * one - 4_000_000 * size) <= 4_000_000 * size) by (nonlinear_arith)
        requires
            num == (124 * one) * one,
            den == 4_000_000 * one,
            one > 0,
            -(size * den) <= 0x20_0000_0000_0000 * (num - size * den) <= size * den,
    ;
    factor
}

/// A scale whose exponent is 15 above that of an LSB, and which gives nearly the LSB when it is
/// multiplied by 124 over four million, agrees with it under the crystal.
#[verifier::spinoff_prover]
proof fn lemma_scaled_by_crystal(scale: u64, lsb: u64)
    requires
        0x10_0000_0000_0000 <= scale < crate::binary::INFINITY_64,
        0x10_0000_0000_0000 <= lsb < crate::binary::INFINITY_64,
        scale / 0x10_0000_0000_0000 == lsb / 0x10_0000_0000_0000 + 15,
        1000 <= scale / 0x10_0000_0000_0000 <= 1030,
        ({
            let product = (124 * 0x8000) * (0x10_0000_0000_0000 + scale % 0x10_0000_0000_0000);
            let wanted = 4_000_000 * (0x10_0000_0000_0000 + lsb % 0x10_0000_0000_0000);
            -wanted <= 110_000 * (product - wanted) <= wanted
        }),
    ensures
        ({
            let factor = Binary64::of_integer(124).quotient(Binary64 { bits: FOUR_MEGAHERTZ });
            agrees((Binary64 { bits: scale }).product(factor), Binary64 { bits: lsb })
        }),
{
    vstd::arithmetic::power2::lemma2_to64();
    vstd::arithmetic::power2::lemma2_to64_rest();
    let factor = lemma_crystal_factor();
    lemma_normal_size(scale);
    lemma_normal_size(lsb);
    let x = lsb / 0x10_0000_0000_0000 - 1;
    let u = crate::rounding::power(x as nat) as int;
    let one = crate::rounding::power(1074) as int;
    let s = (Binary64 { bits: scale }).size() as int;
    let c = (Binary64 { bits: lsb }).size() as int;
    let f = factor.size() as int;
    let s1 = 0x10_0000_0000_0000 + scale % 0x10_0000_0000_0000;
    let s2 = 0x10_0000_0000_0000 + lsb % 0x10_0000_0000_0000;
    vstd::arithmetic::power2::lemma_pow2_adds(x as nat, 15);
    vstd::arithmetic::power2::lemma_pow2_pos(x as nat);
    vstd::arithmetic::power2::lemma_pow2_pos(1074);
    assert(s == s1 * (u * 0x8000) && c == s2 * u);

    // The exact product lies between two powers of two.
    let t = s * f;
    lemma_product_between(s, s1, (x + 15) as nat, f);
    crate::rounding::rounding_between_powers(t as nat, one as nat, (x + 51) as nat, (x + 54) as nat, 52, 2047);
    assert(2047 * crate::rounding::power(52) == crate::binary::INFINITY_64);
    let product = (Binary64 { bits: scale }).product(factor);
    let p = product.size() as int;
    assert(product.pattern() == Binary64::rounded(t as nat, one as nat));
    vstd::arithmetic::power2::lemma_pow2_pos((x + 51) as nat);

    // Both roundings are far finer than what the scales differ by.
    let w = u * one;
    let v = s * one;
    let po = p * one;
    let co = c * one;
    assert(v == (0x8000 * s1) * w && co == s2 * w && w > 0) by (nonlinear_arith)
        requires
            s == s1 * (u * 0x8000),
            c == s2 * u,
            v == s * one,
            co == c * one,
            w == u * one,
            u > 0,
            one > 0,
    ;
    let exact = 124 * one;
    let g = 4_000_000 * f;
    assert(-(4_000_000 * t) <= 0x20_0000_0000_0000 * (124 * v - 4_000_000 * t) <= 4_000_000 * t) by (nonlinear_arith)
        requires
            -g <= 0x20_0000_0000_0000 * (exact - g) <= g,
            g == 4_000_000 * f,
            exact == 124 * one,
            t == s * f,
            v == s * one,
            s >= 0,
    {
        assert(s * g == 4_000_000 * t);
        assert(s * exact == 124 * v);
        assert(s * (-g) <= s * (0x20_0000_0000_0000 * (exact - g)) <= s * g);
        assert(s * (0x20_0000_0000_0000 * (exact - g)) == 0x20_0000_0000_0000 * (s * exact - s * g));
        assert(s * (-g) == -(s * g));
    }
    let near = (124 * 0x8000) * s1;
    let wanted = 4_000_000 * s2;
    assert(-(4_000_000 * co) <= 110_000 * (124 * v - 4_000_000 * co) <= 4_000_000 * co) by (nonlinear_arith)
        requires
            -wanted <= 110_000 * (near - wanted) <= wanted,
            near == (124 * 0x8000) * s1,
            wanted == 4_000_000 * s2,
            v == (0x8000 * s1) * w,
            co == s2 * w,
            w > 0,
    {
        assert(near * w == 124 * v);
        assert(wanted * w == 4_000_000 * co);
        assert((-wanted) * w <= (110_000 * (near - wanted)) * w <= wanted * w);
        assert((110_000 * (near - wanted)) * w == 110_000 * (near * w - wanted * w));
        assert((-wanted) * w == -(wanted * w));
    }
    let half = crate::rounding::power(52) as int;
    assert(-po <= 0x20_0000_0000_0000 * (t - po) <= po) by (nonlinear_arith)
        requires
            half == 0x10_0000_0000_0000,
            -po <= 2 * half * (t - po) <= po,
    ;
    assert(-co <= 100_000 * (po - co) <= co);
    assert(-c <= 100_000 * (p - c) <= c) by (nonlinear_arith)
        requires
            -co <= 100_000 * (po - co) <= co,
            po == p * one,
            co == c * one,
            one > 0,
    ;
    crate::rounding::zero_has_no_magnitude(product.pattern(), 52);
}

/// The size of a scale times the factor of the crystal, between powers of two.
proof fn lemma_product_between(s: int, significand: int, e: nat, f: int)
    requires
        0x10_0000_0000_0000 <= significand < 0x20_0000_0000_0000,
        s == significand * crate::rounding::power(e),
        crate::rounding::power(1058) <= f <= crate::rounding::power(1060),
        e >= 0,
    ensures
        0 <= crate::rounding::power(e + 36) * crate::rounding::power(1074) <= s * f <= crate::rounding::power(e + 39)
            * crate::rounding::power(1074),
{
    vstd::arithmetic::power2::lemma2_to64_rest();
    vstd::arithmetic::power2::lemma_pow2_adds(e, 52);
    vstd::arithmetic::power2::lemma_pow2_adds(e, 53);
    vstd::arithmetic::power2::lemma_pow2_adds(e + 52, 1058);
    vstd::arithmetic::power2::lemma_pow2_adds(e + 53, 1060);
    vstd::arithmetic::power2::lemma_pow2_adds(e + 36, 1074);
    vstd::arithmetic::power2::lemma_pow2_adds(e + 39, 1074);
    vstd::arithmetic::power2::lemma_pow2_pos(e);
    vstd::arithmetic::power2::lemma_pow2_pos(1058);
    let pe = crate::rounding::power(e) as int;
    let low = crate::rounding::power(e + 52) as int;
    let high = crate::rounding::power(e + 53) as int;
    let f1 = crate::rounding::power(1058) as int;
    let f2 = crate::rounding::power(1060) as int;
    assert(low <= s <= high && low >= 0) by (nonlinear_arith)
        requires
            0x10_0000_0000_0000 <= significand < 0x20_0000_0000_0000,
            s == significand * pe,
            low == pe * 0x10_0000_0000_0000,
            high == pe * 0x20_0000_0000_0000,
            pe > 0,
    ;
    assert(0 <= low * f1 <= s * f <= high * f2) by (nonlinear_arith)
        requires
            0 <= low <= s <= high,
            0 <= f1 <= f <= f2,
    ;
}

/// An LSB in volts over a shunt resistance, if the resistance is positive and finite.
pub open spec fn lsb_over_shunt(lsb: Binary64, shunt_ohms: Binary64) -> Option<Binary64> {
    if shunt_ohms.is_positive() {
        Some(lsb.quotient(shunt_ohms))
    } else {
        None
    }
}

/// An LSB over a shunt is their quotient, but for one rounding, and there is one exactly if the
/// shunt is above zero and below the infinity.
pub proof fn lsbs_are_divided_by_the_shunt(lsb: Binary64, shunt_ohms: Binary64)
    ensures
        lsb_over_shunt(lsb, shunt_ohms) is Some <==> 0 < shunt_ohms.bits < 0x7FF0_0000_0000_0000,
        lsb_over_shunt(lsb, shunt_ohms) matches Some(divided) ==> lsb.is_finite() && divided.is_finite() ==> is_quotient(
            divided,
            lsb,
            shunt_ohms,
        ),
{
    crate::rounding::zero_has_no_magnitude(shunt_ohms.pattern(), 52);
    if shunt_ohms.is_positive() && lsb.is_finite() && lsb.quotient(shunt_ohms).is_finite() {
        crate::binary::quotient_is_close_64(lsb, shunt_ohms);
    }
}

/// Divides an LSB in volts by a shunt resistance, if the resistance is positive and finite.
pub fn divide_lsb_by_shunt(lsb: Binary64, shunt_ohms: Binary64) -> (divided: Option<Binary64>)
    ensures
        divided == lsb_over_shunt(lsb, shunt_ohms),
{
    if shunt_ohms.is_positive() {
        Some(lsb.divide(shunt_ohms))
    } else {
        None
    }
}

/// The register code of a threshold: the nearest integer to the value over the LSB, if both
/// are sound and the code lies between `min` and `max`.
pub open spec fn code(value: Binary64, lsb: Binary64, min: int, max: int) -> Option<int> {
    let quotient = value.quotient(lsb);
    if value.is_finite() && lsb.is_positive() && quotient.is_finite() && min <= quotient.nearest() <= max {
        Some(quotient.nearest())
    } else {
        None
    }
}

/// The register code of a threshold that must not be negative.
pub open spec fn unsigned_code(value: Binary64, lsb: Binary64, max: int) -> Option<int> {
    if value.units() < 0 {
        None
    } else {
        code(value, lsb, 0, max)
    }
}

/// The register codes of a low and a high threshold, if both exist and the low value is not
/// above the high one.
pub open spec fn codes(low: Binary64, high: Binary64, lsb: Binary64, min: int, max: int) -> Option<(int, int)> {
    match (code(low, lsb, min, max), code(high, lsb, min, max)) {
        (Some(low_code), Some(high_code)) => if low.units() > high.units() {
            None
        } else {
            Some((low_code, high_code))
        },
        _ => None,
    }
}

/// The bytes of the codes of a high and a low threshold, in `n` bytes each.
pub open spec fn pair_bytes(low: Binary64, high: Binary64, lsb: Binary64, n: nat, min: int, max: int) -> Option<
    (Seq<u8>, Seq<u8>),
> {
    match codes(low, high, lsb, min, max) {
        Some((low_code, high_code)) => Some((crate::bytes::encoded(high_code, n), crate::bytes::encoded(low_code, n))),
        None => None,
    }
}

/// The smallest 48-bit two's-complement number.
pub const MIN_48: i64 = -0x8000_0000_0000;

/// The largest 48-bit two's-complement number.
pub const MAX_48: i64 = 0x7FFF_FFFF_FFFF;

/// Rounds a threshold to the nearest signed register code between `min` and `max`.
pub fn quantize_signed(value: Binary64, lsb: Binary64, min: i64, max: i64) -> (result: Option<i64>)
    ensures
        match result {
            Some(raw) => code(value, lsb, min as int, max as int) == Some(raw as int),
            None => code(value, lsb, min as int, max as int) is None,
        },
{
    if !value.is_finite() || !lsb.is_positive() {
        return None;
    }
    match value.divide(lsb).nearest_integer() {
        None => None,
        Some(integer) => if integer < min as i128 || integer > max as i128 {
            None
        } else {
            Some(integer as i64)
        },
    }
}

/// Rounds a threshold to the nearest signed 16-bit register code.
pub fn quantize_signed_16(value: Binary64, lsb: Binary64) -> (result: Option<i16>)
    ensures
        match result {
            Some(raw) => code(value, lsb, i16::MIN as int, i16::MAX as int) == Some(raw as int),
            None => code(value, lsb, i16::MIN as int, i16::MAX as int) is None,
        },
{
    match quantize_signed(value, lsb, i16::MIN as i64, i16::MAX as i64) {
        None => None,
        Some(raw) => Some(raw as i16),
    }
}

/// Rounds a threshold to the nearest signed 48-bit register code.
pub fn quantize_signed_48(value: Binary64, lsb: Binary64) -> (result: Option<i64>)
    ensures
        match result {
            Some(raw) => code(value, lsb, MIN_48 as int, MAX_48 as int) == Some(raw as int),
            None => code(value, lsb, MIN_48 as int, MAX_48 as int) is None,
        },
{
    quantize_signed(value, lsb, MIN_48, MAX_48)
}

/// Rounds a threshold to the nearest signed 64-bit register code.
pub fn quantize_signed_64(value: Binary64, lsb: Binary64) -> (result: Option<i64>)
    ensures
        match result {
            Some(raw) => code(value, lsb, i64::MIN as int, i64::MAX as int) == Some(raw as int),
            None => code(value, lsb, i64::MIN as int, i64::MAX as int) is None,
        },
{
    quantize_signed(value, lsb, i64::MIN, i64::MAX)
}

/// Rounds a threshold to the nearest unsigned 32-bit register code.
pub fn quantize_unsigned_32(value: Binary64, lsb: Binary64) -> (result: Option<u32>)
    ensures
        match result {
            Some(raw) => unsigned_code(value, lsb, u32::MAX as int) == Some(raw as int),
            None => unsigned_code(value, lsb, u32::MAX as int) is None,
        },
{
    if value.is_below_zero() {
        return None;
    }
    match quantize_signed(value, lsb, 0, u32::MAX as i64) {
        None => None,
        Some(raw) => Some(raw as u32),
    }
}

/// A code is the integer nearest to the value over the LSB, as far as binary64 can tell: twice
/// the distance is at most one LSB, and one part in 2^52 of the code and two.
pub proof fn code_is_nearest(value: Binary64, lsb: Binary64, min: int, max: int)
    requires
        code(value, lsb, min, max) is Some,
    ensures
        ({
            let number = code(value, lsb, min, max)->0;
            let size = if number < 0 {
                -number
            } else {
                number
            };
            let twice = 2 * (value.units() - number * lsb.units());
            let bound = lsb.units() * (0x10_0000_0000_0000 + size + 2);
            &&& min <= number <= max
            &&& -bound <= twice * 0x10_0000_0000_0000 <= bound
        }),
{
    crate::binary::nearest_quotient_is_close(value, lsb);
}

/// Every value of at most `q * 2^e` LSBs has a code, if the register takes that many.
pub proof fn values_in_range_have_codes(value: Binary64, lsb: Binary64, min: int, max: int, q: nat, e: nat)
    requires
        value.is_finite(),
        lsb.is_positive(),
        0 < q <= 0x1F_FFFF_FFFF_FFFF,
        e <= 63,
        min <= 0 <= max,
        value.units() > 0 ==> q * crate::rounding::power(e) <= max,
        value.units() < 0 ==> min <= -(q * crate::rounding::power(e)),
        value.size() <= q * crate::rounding::power(e) * lsb.size(),
    ensures
        code(value, lsb, min, max) is Some,
        value.units() >= 0 ==> unsigned_code(value, lsb, max) is Some,
{
    crate::binary::nearest_quotient_is_bounded(value, lsb, q, e);
}

/// No value of at least `q * 2^e` LSBs has a code, if the register takes fewer than that many, no
/// number that is not finite has one, and no value has one over an LSB that is not positive.
pub proof fn values_out_of_range_have_no_codes(value: Binary64, lsb: Binary64, min: int, max: int, q: nat, e: nat)
    requires
        0 < q <= 0x1F_FFFF_FFFF_FFFF,
        e <= 63,
    ensures
        !value.is_finite() || !lsb.is_positive() ==> code(value, lsb, min, max) is None,
        max < q * crate::rounding::power(e) && value.units() >= q * crate::rounding::power(e) * lsb.units() ==> code(
            value,
            lsb,
            min,
            max,
        ) is None,
        -(q * crate::rounding::power(e)) < min && value.units() <= -(q * crate::rounding::power(e) * lsb.units()) ==> code(
            value,
            lsb,
            min,
            max,
        ) is None,
        value.units() < 0 ==> unsigned_code(value, lsb, max) is None,
        value.units() >= 0 && min <= 0 ==> unsigned_code(value, lsb, max) == code(value, lsb, min, max),
{
    if value.is_finite() && lsb.is_positive() {
        crate::binary::nearest_quotient_is_bounded(value, lsb, q, e);
    }
}

/// A pair has codes exactly if each of its values has one and the low value is not above the high
/// one.
pub proof fn pairs_have_the_codes_of_their_values(low: Binary64, high: Binary64, lsb: Binary64, min: int, max: int)
    ensures
        codes(low, high, lsb, min, max) is Some <==> code(low, lsb, min, max) is Some && code(high, lsb, min, max) is Some
            && low.units() <= high.units(),
        codes(low, high, lsb, min, max) matches Some((low_code, high_code)) ==> code(low, lsb, min, max) == Some(low_code)
            && code(high, lsb, min, max) == Some(high_code),
{
}

/// The codes of a valid pair are in the order of its values.
pub proof fn codes_are_ordered(low: Binary64, high: Binary64, lsb: Binary64, min: int, max: int)
    ensures
        codes(low, high, lsb, min, max) matches Some((low_code, high_code)) ==> min <= low_code <= high_code <= max,
{
    if codes(low, high, lsb, min, max) is Some {
        crate::binary::quotient_is_monotonic(low, high, lsb);
        crate::binary::nearest_is_monotonic(low.quotient(lsb), high.quotient(lsb));
    }
}

/// The bytes of a threshold pair, read as two's-complement numbers, are its codes, in every
/// register width.
pub proof fn thresholds_read_back(low: Binary64, high: Binary64, lsb: Binary64)
    ensures
        pair_bytes(low, high, lsb, 2, i16::MIN as int, i16::MAX as int) matches Some((first, second)) ==> {
            &&& first.len() == 2
            &&& second.len() == 2
            &&& codes(low, high, lsb, i16::MIN as int, i16::MAX as int) == Some(
                (crate::bytes::signed(second), crate::bytes::signed(first)),
            )
        },
        pair_bytes(low, high, lsb, 6, MIN_48 as int, MAX_48 as int) matches Some((first, second)) ==> {
            &&& first.len() == 6
            &&& second.len() == 6
            &&& codes(low, high, lsb, MIN_48 as int, MAX_48 as int) == Some(
                (crate::bytes::signed(second), crate::bytes::signed(first)),
            )
        },
        pair_bytes(low, high, lsb, 8, i64::MIN as int, i64::MAX as int) matches Some((first, second)) ==> {
            &&& first.len() == 8
            &&& second.len() == 8
            &&& codes(low, high, lsb, i64::MIN as int, i64::MAX as int) == Some(
                (crate::bytes::signed(second), crate::bytes::signed(first)),
            )
        },
{
    reveal_with_fuel(crate::bytes::span, 9);
    if let Some((low_code, high_code)) = codes(low, high, lsb, i16::MIN as int, i16::MAX as int) {
        crate::bytes::signed_round_trip(high_code, 2);
        crate::bytes::signed_round_trip(low_code, 2);
    }
    if let Some((low_code, high_code)) = codes(low, high, lsb, MIN_48 as int, MAX_48 as int) {
        crate::bytes::signed_round_trip(high_code, 6);
        crate::bytes::signed_round_trip(low_code, 6);
    }
    if let Some((low_code, high_code)) = codes(low, high, lsb, i64::MIN as int, i64::MAX as int) {
        crate::bytes::signed_round_trip(high_code, 8);
        crate::bytes::signed_round_trip(low_code, 8);
    }
}

/// The value that a result register with the code `raw` stands for, in binary64.
pub open spec fn decoded(raw: i16, lsb: Binary32) -> Binary64 {
    Binary32::of_integer(raw as int).product(lsb).widened()
}

/// The value that a code stands for has that code as a threshold over the same LSB. The LSB must
/// be neither so small that it has lost bits, nor so large that a value is infinite.
pub proof fn decoded_code_reads_back(raw: i16, lsb: Binary32)
    requires
        0x80_0000 <= lsb.bits < 0x7800_0000,
    ensures
        code(decoded(raw, lsb), lsb.widened(), i16::MIN as int, i16::MAX as int) == Some(raw as int),
{
    crate::binary::scaling_is_undone(raw, lsb);
}

/// The values that two ordered codes stand for have those codes as a pair of thresholds.
pub proof fn decoded_pair_reads_back(low: i16, high: i16, lsb: Binary32)
    requires
        low <= high,
        0x80_0000 <= lsb.bits < 0x7800_0000,
    ensures
        codes(decoded(low, lsb), decoded(high, lsb), lsb.widened(), i16::MIN as int, i16::MAX as int) == Some(
            (low as int, high as int),
        ),
{
    decoded_code_reads_back(low, lsb);
    decoded_code_reads_back(high, lsb);
    lemma_pair_of_codes(decoded(low, lsb), decoded(high, lsb), lsb.widened(), low as int, high as int);
}

/// Values whose codes are in order make a pair.
proof fn lemma_pair_of_codes(low: Binary64, high: Binary64, lsb: Binary64, low_code: int, high_code: int)
    requires
        low_code <= high_code,
        low_code == high_code ==> low == high,
        code(low, lsb, i16::MIN as int, i16::MAX as int) == Some(low_code),
        code(high, lsb, i16::MIN as int, i16::MAX as int) == Some(high_code),
    ensures
        codes(low, high, lsb, i16::MIN as int, i16::MAX as int) == Some((low_code, high_code)),
{
    if low.units() > high.units() {
        crate::binary::quotient_is_monotonic(high, low, lsb);
        crate::binary::nearest_is_monotonic(high.quotient(lsb), low.quotient(lsb));
    }
}

/// A temperature in degrees Celsius as a number of kelvin, in binary64.
pub open spec fn kelvin(celsius: Binary32) -> Binary64 {
    celsius.sum(Binary32 { bits: DieTemperature::ZERO_CELSIUS_KELVIN }).widened()
}

/// A temperature in kelvin is that in degrees Celsius and 273.15 K, but for one rounding.
pub proof fn kelvin_is_celsius_and_the_offset(celsius: Binary32)
    requires
        celsius.is_finite(),
        celsius.sum(Binary32 { bits: DieTemperature::ZERO_CELSIUS_KELVIN }).is_finite(),
    ensures
        exists|rounded: Binary32|
            #![trigger rounded.units()]
            {
                let offset = Binary32 { bits: DieTemperature::ZERO_CELSIUS_KELVIN };
                let bound = rounded.size() + crate::rounding::power(23);
                &&& kelvin(celsius).units() == rounded.units() * crate::rounding::power(925)
                &&& -bound <= 2 * crate::rounding::power(23) * (celsius.units() + offset.units() - rounded.units()) <= bound
            },
{
    let offset = Binary32 { bits: DieTemperature::ZERO_CELSIUS_KELVIN };
    let rounded = celsius.sum(offset);
    crate::binary::sum_is_close(celsius, offset);
    crate::binary::widening_is_exact(rounded);
    let at = rounded.units();
}

/// The temperature in degrees Celsius that a die-temperature code stands for.
pub open spec fn celsius(raw: i16) -> Binary32 {
    Binary32::of_integer(raw as int).product(Binary32 { bits: DieTemperature::LSB_KELVIN }).sum(
        (Binary32 { bits: DieTemperature::ZERO_CELSIUS_KELVIN }).opposite(),
    )
}

/// The temperatures in degrees Celsius that two ordered codes stand for have those codes as a
/// pair of thresholds in kelvin.
pub proof fn decoded_temperatures_read_back(low: i16, high: i16)
    requires
        low <= high,
    ensures
        codes(
            kelvin(celsius(low)),
            kelvin(celsius(high)),
            (Binary32 { bits: DieTemperature::LSB_KELVIN }).widened(),
            i16::MIN as int,
            i16::MAX as int,
        ) == Some((low as int, high as int)),
{
    let lsb = Binary32 { bits: DieTemperature::LSB_KELVIN };
    let offset = Binary32 { bits: DieTemperature::ZERO_CELSIUS_KELVIN };
    lemma_offset_is_small();
    crate::binary::offset_is_undone(low, lsb, offset);
    crate::binary::offset_is_undone(high, lsb, offset);
    lemma_pair_of_codes(kelvin(celsius(low)), kelvin(celsius(high)), lsb.widened(), low as int, high as int);
}

/// Zero degrees Celsius is less than 2^13 steps of the die temperature.
proof fn lemma_offset_is_small()
    ensures
        (Binary32 { bits: DieTemperature::ZERO_CELSIUS_KELVIN }).is_positive(),
        (Binary32 { bits: DieTemperature::ZERO_CELSIUS_KELVIN }).size() <= 0x2000 * (Binary32 {
            bits: DieTemperature::LSB_KELVIN,
        }).size(),
{
    vstd::arithmetic::power2::lemma2_to64();
    vstd::arithmetic::power2::lemma_pow2_adds(123, 11);
    crate::rounding::zero_has_no_magnitude(DieTemperature::ZERO_CELSIUS_KELVIN as nat, 23);
    let step = crate::rounding::power(123) as int;
    assert(crate::rounding::power(23) == 0x80_0000);
    assert(0x3E4C_CCCDnat / 0x80_0000 == 124 && 0x3E4C_CCCDnat % 0x80_0000 == 0x4C_CCCD);
    assert(0x4388_9333nat / 0x80_0000 == 135 && 0x4388_9333nat % 0x80_0000 == 0x08_9333);
    assert(crate::rounding::magnitude(DieTemperature::LSB_KELVIN as nat, 23) == 0xCC_CCCD * step);
    assert(crate::rounding::magnitude(DieTemperature::ZERO_CELSIUS_KELVIN as nat, 23) == 0x88_9333 * (step * 0x800));
    assert(0x88_9333 * (step * 0x800) <= 0x2000 * (0xCC_CCCD * step)) by (nonlinear_arith)
        requires
            step >= 0,
    ;
}

/// The ratio of two numbers, if both and the ratio itself are positive and finite.
pub open spec fn sound_ratio(numerator: Binary32, denominator: Binary32) -> Option<Binary32> {
    let ratio = numerator.quotient(denominator);
    if numerator.is_positive() && denominator.is_positive() && ratio.is_positive() {
        Some(ratio)
    } else {
        None
    }
}

/// A ratio of two numbers is sound exactly if both and their quotient are above zero and below the
/// infinity, and then it is their quotient, but for one rounding.
pub proof fn sound_ratios_are_quotients(numerator: Binary32, denominator: Binary32)
    ensures
        sound_ratio(numerator, denominator) is Some <==> 0 < numerator.bits < 0x7F80_0000 && 0 < denominator.bits
            < 0x7F80_0000 && 0 < numerator.quotient(denominator).bits < 0x7F80_0000,
        sound_ratio(numerator, denominator) matches Some(ratio) ==> {
            let gap = numerator.units() * crate::rounding::power(149) - ratio.units() * denominator.units();
            let bound = ratio.units() * denominator.units() + crate::rounding::power(23) * denominator.units();
            -bound <= 2 * crate::rounding::power(23) * gap <= bound
        },
{
    let zero = Binary64 { bits: 0 };
    crate::binary::positive_numbers_have_positive_bits(numerator, zero);
    crate::binary::positive_numbers_have_positive_bits(denominator, zero);
    crate::binary::positive_numbers_have_positive_bits(numerator.quotient(denominator), zero);
    if sound_ratio(numerator, denominator) is Some {
        crate::binary::quotient_is_close_32(numerator, denominator);
    }
}

/// The ratio of two numbers, if both and the ratio itself are positive and finite.
pub fn positive_ratio(numerator: Binary32, denominator: Binary32) -> (ratio: Option<Binary32>)
    ensures
        ratio == sound_ratio(numerator, denominator),
{
    if !numerator.is_positive() || !denominator.is_positive() {
        return None;
    }
    let ratio = numerator.divide(denominator);
    if ratio.is_positive() {
        Some(ratio)
    } else {
        None
    }
}

/// LSBs compare equal exactly if the three of them do.
pub proof fn lsbs_compare_by_each(first: AccumulatorLsbs, second: AccumulatorLsbs)
    requires
        first.charge.is_finite() && first.energy.is_finite() && first.time.is_finite(),
        second.charge.is_finite() && second.energy.is_finite() && second.time.is_finite(),
    ensures
        vstd::std_specs::cmp::PartialEqSpec::eq_spec(&first, &second) <==> first.charge.units() == second.charge.units()
            && first.energy.units() == second.energy.units() && first.time.units() == second.time.units(),
{
    let zero = Binary32 { bits: 0 };
    crate::binary::numbers_compare_by_value(zero, zero, first.charge, second.charge);
    crate::binary::numbers_compare_by_value(zero, zero, first.energy, second.energy);
    crate::binary::numbers_compare_by_value(zero, zero, first.time, second.time);
}

} // verus!
