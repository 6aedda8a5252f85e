//! Configuration payloads.
use vstd::prelude::*;

use crate::binary::Binary32;

verus! {

/// Overcurrent control register payload for OCC1CTRL/OCC2CTRL (datasheet Tables 50 & 51).
#[derive(Copy, Clone, Eq, PartialEq, Structural, Debug)]
pub struct OverCurrentConfig {
    /// OCCEN: enables the overcurrent comparator for the channel.
    pub enable: bool,
    /// OCCxDAC\[2:0\]: differential shunt-voltage threshold selector. Values map to
    /// 0, 26, 52, 78, 103, 155, 207 and 310 mV; convert to current with
    /// `I_limit = V_threshold / R_shunt`.
    pub threshold: u8,
    /// OCCxDGL\[1:0\]: deglitch time selector. Values map to off, 80 us, 320 us and
    /// 1280 us before the comparator event is accepted.
    pub deglitch_time: u8,
    /// OCCxPOL\[1:0\]: comparator polarity selector. `0b00` checks both current directions;
    /// `0b01` positive only; `0b10` negative only.
    pub polarity: u8,
}

impl OverCurrentConfig {
    /// The register byte: the enable flag in bit 0, the threshold from bit 1, the deglitch
    /// time from bit 4 and the polarity from bit 6 on.
    pub open spec fn spec_byte(self) -> u8 {
        (if self.enable {
            1u8
        } else {
            0u8
        }) | (self.threshold << 1) | (self.deglitch_time << 4) | (self.polarity << 6)
    }

    /// Packs the fields into the register byte.
    #[verifier::when_used_as_spec(spec_byte)]
    pub fn byte(self) -> (byte: u8)
        ensures
            byte == self.spec_byte(),
    {
        let enable: u8 = if self.enable { 1 } else { 0 };
        enable | (self.threshold << 1) | (self.deglitch_time << 4) | (self.polarity << 6)
    }
}

/// Fields that fit in their bits do not touch each other in the register byte.
pub proof fn overcurrent_fields_are_separate(config: OverCurrentConfig)
    requires
        config.threshold < 8,
        config.deglitch_time < 4,
        config.polarity < 4,
    ensures
        config.byte() == (if config.enable {
            1int
        } else {
            0int
        }) + 2 * config.threshold + 16 * config.deglitch_time + 64 * config.polarity,
{
    let e = if config.enable {
        1u8
    } else {
        0u8
    };
    let t = config.threshold;
    let d = config.deglitch_time;
    let p = config.polarity;
    assert(e | (t << 1) | (d << 4) | (p << 6) == e + 2 * t + 16 * d + 64 * p) by (bit_vector)
        requires
            e <= 1,
            t < 8,
            d < 4,
            p < 4,
    ;
}

/// One of the two LTC2949 measurement channels: each pairs a current/power ADC, a SLOT,
/// an NTC lineariser and a sense-resistor TC entry (suffix 1 vs. 2).
#[derive(Copy, Clone, Eq, PartialEq, Structural, Debug)]
pub enum Channel {
    One,
    Two,
}

/// Steinhart-Hart parameters for one NTC channel: `1/T = a + b*ln(R) + c*ln(R)^3`, with `R`
/// inferred from `r_ref`. Stored on-chip as Float24.
#[derive(Copy, Clone, Debug)]
pub struct NtcConfig {
    /// Series reference resistor `R_ref` in ohms.
    pub r_ref: Binary32,
    /// Coefficient A (units: 1/K).
    pub a: Binary32,
    /// Coefficient B (units: 1/K).
    pub b: Binary32,
    /// Coefficient C (units: 1/K).
    pub c: Binary32,
}

impl PartialEq for NtcConfig {
    fn eq(&self, other: &Self) -> (equal: bool) {
        self.r_ref == other.r_ref && self.a == other.a && self.b == other.b && self.c == other.c
    }
}

impl vstd::std_specs::cmp::PartialEqSpecImpl for NtcConfig {
    open spec fn obeys_eq_spec() -> bool {
        true
    }

    open spec fn eq_spec(&self, other: &Self) -> bool {
        &&& vstd::std_specs::cmp::PartialEqSpec::eq_spec(&self.r_ref, &other.r_ref)
        &&& vstd::std_specs::cmp::PartialEqSpec::eq_spec(&self.a, &other.a)
        &&& vstd::std_specs::cmp::PartialEqSpec::eq_spec(&self.b, &other.b)
        &&& vstd::std_specs::cmp::PartialEqSpec::eq_spec(&self.c, &other.c)
    }
}

/// Sense-resistor temperature-drift compensation: `R(T) = R0*[1 + tc*(T-t_ref) + tc2*(T-t_ref)^2]`,
/// `T` being the linearised NTC reading. Copper is about `0.0039 /K`; low-TC alloys can stay
/// uncompensated.
#[derive(Copy, Clone, Debug)]
pub struct ShuntTcConfig {
    /// First-order temperature coefficient (1/K). Datasheet `RSnTC`.
    pub tc: Binary32,
    /// Reference temperature `T0` in degrees Celsius where the resistor is nominal (datasheet
    /// `RSnT0`, stored as 16-bit truncated Float24).
    pub t_ref: Binary32,
    /// Second-order temperature coefficient (1/K^2). Datasheet `RSnTC2`. Zero disables the
    /// quadratic term, which is fine for copper.
    pub tc2: Binary32,
}

impl PartialEq for ShuntTcConfig {
    fn eq(&self, other: &Self) -> (equal: bool) {
        self.tc == other.tc && self.t_ref == other.t_ref && self.tc2 == other.tc2
    }
}

impl vstd::std_specs::cmp::PartialEqSpecImpl for ShuntTcConfig {
    open spec fn obeys_eq_spec() -> bool {
        true
    }

    open spec fn eq_spec(&self, other: &Self) -> bool {
        &&& vstd::std_specs::cmp::PartialEqSpec::eq_spec(&self.tc, &other.tc)
        &&& vstd::std_specs::cmp::PartialEqSpec::eq_spec(&self.t_ref, &other.t_ref)
        &&& vstd::std_specs::cmp::PartialEqSpec::eq_spec(&self.tc2, &other.tc2)
    }
}

/// Two NTC configurations, and two compensations of a sense resistor, compare equal exactly if
/// each of their numbers does.
pub proof fn configurations_compare_by_each_number(
    first: NtcConfig,
    second: NtcConfig,
    third: ShuntTcConfig,
    fourth: ShuntTcConfig,
)
    requires
        first.r_ref.is_finite() && first.a.is_finite() && first.b.is_finite() && first.c.is_finite(),
        second.r_ref.is_finite() && second.a.is_finite() && second.b.is_finite() && second.c.is_finite(),
        third.tc.is_finite() && third.t_ref.is_finite() && third.tc2.is_finite(),
        fourth.tc.is_finite() && fourth.t_ref.is_finite() && fourth.tc2.is_finite(),
    ensures
        vstd::std_specs::cmp::PartialEqSpec::eq_spec(&first, &second) <==> first.r_ref.units() == second.r_ref.units()
            && first.a.units() == second.a.units() && first.b.units() == second.b.units() && first.c.units()
            == second.c.units(),
        vstd::std_specs::cmp::PartialEqSpec::eq_spec(&third, &fourth) <==> third.tc.units() == fourth.tc.units()
            && third.t_ref.units() == fourth.t_ref.units() && third.tc2.units() == fourth.tc2.units(),
{
    let zero = crate::binary::Binary64 { bits: 0 };
    crate::binary::numbers_compare_by_value(first.r_ref, second.r_ref, zero, zero);
    crate::binary::numbers_compare_by_value(first.a, second.a, zero, zero);
    crate::binary::numbers_compare_by_value(first.b, second.b, zero, zero);
    crate::binary::numbers_compare_by_value(first.c, second.c, zero, zero);
    crate::binary::numbers_compare_by_value(third.tc, fourth.tc, zero, zero);
    crate::binary::numbers_compare_by_value(third.t_ref, fourth.t_ref, zero, zero);
    crate::binary::numbers_compare_by_value(third.tc2, fourth.tc2, zero, zero);
}

/// Inputs the AUX multiplexer can route to the SLOT pair (`MUXP`/`MUXN`) or the fast-mode
/// `FAMUX` registers.
#[derive(Copy, Clone, Eq, PartialEq, Structural, Debug)]
pub enum MuxInput {
    Agnd,
    V1,
    V2,
    V3,
    V4,
    V5,
    V6,
    V7,
    V8,
    V9,
    V10,
    V11,
    V12,
    /// Overcurrent comparator test input (negative side).
    Imt,
    /// Overcurrent comparator test input (positive side).
    Ipt,
    VbatM,
    VbatP,
    Cf2M,
    Cf2P,
    Cf1M,
    Cf1P,
    /// Internal 2.39 V redundant reference.
    Vref2,
    /// `VREF2` routed through an internal 250 kOhm, useful for self-test of the AUX MUX
    /// current sources.
    Vref2Via250k,
}

impl MuxInput {
    /// The 5-bit encoding of the input in datasheet Table 57.
    pub open spec fn spec_code(self) -> u8 {
        match self {
            MuxInput::Agnd => 0,
            MuxInput::V1 => 1,
            MuxInput::V2 => 2,
            MuxInput::V3 => 3,
            MuxInput::V4 => 4,
            MuxInput::V5 => 5,
            MuxInput::V6 => 6,
            MuxInput::V7 => 7,
            MuxInput::V8 => 8,
            MuxInput::V9 => 9,
            MuxInput::V10 => 10,
            MuxInput::V11 => 11,
            MuxInput::V12 => 12,
            MuxInput::Imt => 13,
            MuxInput::Ipt => 14,
            MuxInput::VbatM => 15,
            MuxInput::VbatP => 16,
            MuxInput::Cf2M => 17,
            MuxInput::Cf2P => 18,
            MuxInput::Cf1M => 19,
            MuxInput::Cf1P => 20,
            MuxInput::Vref2 => 22,
            MuxInput::Vref2Via250k => 23,
        }
    }

    /// Returns the 5-bit encoding of the input in datasheet Table 57.
    #[verifier::when_used_as_spec(spec_code)]
    pub fn code(self) -> (code: u8)
        ensures
            code == self.spec_code(),
    {
        match self {
            MuxInput::Agnd => 0,
            MuxInput::V1 => 1,
            MuxInput::V2 => 2,
            MuxInput::V3 => 3,
            MuxInput::V4 => 4,
            MuxInput::V5 => 5,
            MuxInput::V6 => 6,
            MuxInput::V7 => 7,
            MuxInput::V8 => 8,
            MuxInput::V9 => 9,
            MuxInput::V10 => 10,
            MuxInput::V11 => 11,
            MuxInput::V12 => 12,
            MuxInput::Imt => 13,
            MuxInput::Ipt => 14,
            MuxInput::VbatM => 15,
            MuxInput::VbatP => 16,
            MuxInput::Cf2M => 17,
            MuxInput::Cf2P => 18,
            MuxInput::Cf1M => 19,
            MuxInput::Cf1P => 20,
            MuxInput::Vref2 => 22,
            MuxInput::Vref2Via250k => 23,
        }
    }
}

/// Two multiplexer inputs with the same code are the same input, and every code fits in five
/// bits.
pub proof fn mux_codes_are_distinct(first: MuxInput, second: MuxInput)
    ensures
        first.code() < 32,
        first.code() == second.code() ==> first == second,
{
}

/// The multiplexer input with a code of datasheet Table 57.
pub open spec fn input_with_code(code: u8) -> Option<MuxInput> {
    if code == 0 {
        Some(MuxInput::Agnd)
    } else if code == 1 {
        Some(MuxInput::V1)
    } else if code == 2 {
        Some(MuxInput::V2)
    } else if code == 3 {
        Some(MuxInput::V3)
    } else if code == 4 {
        Some(MuxInput::V4)
    } else if code == 5 {
        Some(MuxInput::V5)
    } else if code == 6 {
        Some(MuxInput::V6)
    } else if code == 7 {
        Some(MuxInput::V7)
    } else if code == 8 {
        Some(MuxInput::V8)
    } else if code == 9 {
        Some(MuxInput::V9)
    } else if code == 10 {
        Some(MuxInput::V10)
    } else if code == 11 {
        Some(MuxInput::V11)
    } else if code == 12 {
        Some(MuxInput::V12)
    } else if code == 13 {
        Some(MuxInput::Imt)
    } else if code == 14 {
        Some(MuxInput::Ipt)
    } else if code == 15 {
        Some(MuxInput::VbatM)
    } else if code == 16 {
        Some(MuxInput::VbatP)
    } else if code == 17 {
        Some(MuxInput::Cf2M)
    } else if code == 18 {
        Some(MuxInput::Cf2P)
    } else if code == 19 {
        Some(MuxInput::Cf1M)
    } else if code == 20 {
        Some(MuxInput::Cf1P)
    } else if code == 22 {
        Some(MuxInput::Vref2)
    } else if code == 23 {
        Some(MuxInput::Vref2Via250k)
    } else {
        None
    }
}

/// Every multiplexer input is the one that its code stands for, and every code below 24 but 21
/// stands for one.
pub proof fn mux_codes_stand_for_inputs(input: MuxInput, code: u8)
    ensures
        input_with_code(input.code()) == Some(input),
        input_with_code(code) is Some <==> code < 24 && code != 21,
        input_with_code(code) matches Some(found) ==> found.code() == code,
{
}

/// Whatever the fields hold, bit 0 of the register byte is the enable flag, and each further bit
/// is set where the threshold from bit 1 on, the deglitch time from bit 4 on or the polarity from
/// bit 6 on has it set.
pub proof fn overcurrent_fields_start_at_their_bits(config: OverCurrentConfig)
    ensures
        ({
            let byte = config.byte();
            let t = config.threshold;
            let d = config.deglitch_time;
            let p = config.polarity;
            &&& byte % 2 == 1 <==> config.enable
            &&& byte / 2 % 2 == 1 <==> t % 2 == 1
            &&& byte / 4 % 2 == 1 <==> t / 2 % 2 == 1
            &&& byte / 8 % 2 == 1 <==> t / 4 % 2 == 1
            &&& byte / 16 % 2 == 1 <==> t / 8 % 2 == 1 || d % 2 == 1
            &&& byte / 32 % 2 == 1 <==> t / 16 % 2 == 1 || d / 2 % 2 == 1
            &&& byte / 64 % 2 == 1 <==> t / 32 % 2 == 1 || d / 4 % 2 == 1 || p % 2 == 1
            &&& byte / 128 == 1 <==> t / 64 % 2 == 1 || d / 8 % 2 == 1 || p / 2 % 2 == 1
        }),
{
    let e = if config.enable {
        1u8
    } else {
        0u8
    };
    let t = config.threshold;
    let d = config.deglitch_time;
    let p = config.polarity;
    let byte = e | (t << 1) | (d << 4) | (p << 6);
    assert((byte % 2 == 1 <==> e == 1) && (byte / 2 % 2 == 1 <==> t % 2 == 1) && (byte / 4 % 2 == 1 <==> t / 2 % 2 == 1)
        && (byte / 8 % 2 == 1 <==> t / 4 % 2 == 1) && (byte / 16 % 2 == 1 <==> t / 8 % 2 == 1 || d % 2 == 1) && (byte / 32
        % 2 == 1 <==> t / 16 % 2 == 1 || d / 2 % 2 == 1) && (byte / 64 % 2 == 1 <==> t / 32 % 2 == 1 || d / 4 % 2 == 1 || p
        % 2 == 1) && (byte / 128 == 1 <==> t / 64 % 2 == 1 || d / 8 % 2 == 1 || p / 2 % 2 == 1)) by (bit_vector)
        requires
            e <= 1,
            byte == e | (t << 1) | (d << 4) | (p << 6),
    ;
}

/// One of the four programmable AUX-MUX gain-correction settings in Table 72.
#[derive(Copy, Clone, Eq, PartialEq, Structural, Debug)]
pub enum MuxGainSlot {
    One,
    Two,
    Three,
    Four,
}

} // verus!
