//! Measurement results: raw register codes and their physical values.
use vstd::prelude::*;

use crate::binary::{Binary32, Binary64};

verus! {

/// Raw I1/I2 slow-mode current-sense voltage result.
///
/// The LTC2949 stores this as a signed ADC code. [`decode`](Self::decode) converts it to volts
/// at the current sense inputs.
#[derive(Copy, Clone, Eq, PartialEq, Structural, Debug)]
pub struct CurrentSenseVoltage {
    raw: i32,
}

impl View for CurrentSenseVoltage {
    type V = int;

    closed spec fn view(&self) -> int {
        self.raw as int
    }
}

impl CurrentSenseVoltage {
    /// Voltage represented by one raw ADC code, as binary32 bits: 950e-9 V.
    pub const LSB_VOLTS: u32 = 0x357F_0381;

    /// Voltage represented by one I1TH/I1TL or I2TH/I2TL threshold code, as binary32 bits.
    ///
    /// The threshold registers contain the upper 16 bits of the effective 18-bit current
    /// result, so their LSB is four times the result-register LSB (3.8 uV).
    pub const THRESHOLD_LSB_VOLTS: u32 = 0x367F_0381;

    /// Wraps a raw signed 24-bit ADC code, sign-extended to `i32`.
    pub fn from_raw(raw: i32) -> (result: Self)
        ensures
            result@ == raw,
    {
        CurrentSenseVoltage { raw }
    }

    /// Returns the raw signed 24-bit ADC code, sign-extended to `i32`.
    pub fn raw(self) -> (raw: i32)
        ensures
            raw == self@,
    {
        self.raw
    }

    /// The value that the code stands for.
    pub open spec fn spec_decode(self) -> Binary32 {
        Binary32::of_integer(self@).product(Binary32 { bits: Self::LSB_VOLTS })
    }

    /// Decodes the raw ADC code into current-sense voltage in volts.
    #[verifier::when_used_as_spec(spec_decode)]
    pub fn decode(self) -> (value: Binary32)
        ensures
            value == self.spec_decode(),
    {
        Binary32::from_integer(self.raw).multiply(Binary32::from_bits(Self::LSB_VOLTS))
    }
}

/// Raw I1AVG/I2AVG moving-average current-sense voltage result.
///
/// The averaged result has a 4x finer LSB than the unaveraged slow-mode current result.
#[derive(Copy, Clone, Eq, PartialEq, Structural, Debug)]
pub struct AveragedCurrentSenseVoltage {
    raw: i32,
}

impl View for AveragedCurrentSenseVoltage {
    type V = int;

    closed spec fn view(&self) -> int {
        self.raw as int
    }
}

impl AveragedCurrentSenseVoltage {
    /// Voltage represented by one raw ADC code, as binary32 bits: 237.5e-9 V.
    pub const LSB_VOLTS: u32 = 0x347F_0381;

    /// Wraps a raw signed 24-bit ADC code, sign-extended to `i32`.
    pub fn from_raw(raw: i32) -> (result: Self)
        ensures
            result@ == raw,
    {
        AveragedCurrentSenseVoltage { raw }
    }

    /// Returns the raw signed 24-bit ADC code, sign-extended to `i32`.
    pub fn raw(self) -> (raw: i32)
        ensures
            raw == self@,
    {
        self.raw
    }

    /// The value that the code stands for.
    pub open spec fn spec_decode(self) -> Binary32 {
        Binary32::of_integer(self@).product(Binary32 { bits: Self::LSB_VOLTS })
    }

    /// Decodes the raw ADC code into current-sense voltage in volts.
    #[verifier::when_used_as_spec(spec_decode)]
    pub fn decode(self) -> (value: Binary32)
        ensures
            value == self.spec_decode(),
    {
        Binary32::from_integer(self.raw).multiply(Binary32::from_bits(Self::LSB_VOLTS))
    }
}

/// Raw P1/P2 result.
///
/// P1/P2 contain power results by default, or voltage results when `P1ASV`/`P2ASV` is set
/// in [`AdcConfiguration`](crate::registers::AdcConfiguration).
#[derive(Copy, Clone, Eq, PartialEq, Structural, Debug)]
pub struct PowerOrVoltage {
    raw: i32,
}

impl View for PowerOrVoltage {
    type V = int;

    closed spec fn view(&self) -> int {
        self.raw as int
    }
}

impl PowerOrVoltage {
    /// Power-mode scale before applying the external shunt resistance, as binary32 bits:
    /// 5.8368e-12 V^2.
    pub const POWER_LSB_VOLT_SQUARED: u32 = 0x2CCD_5D38;

    /// Voltage-mode scale represented by one raw ADC code, as binary32 bits: 46.875e-6 V.
    pub const VOLTAGE_LSB_VOLTS: u32 = 0x3844_9BA6;

    /// Power-mode scale represented by one P1TH/P1TL or P2TH/P2TL threshold code, as binary32
    /// bits: four times the result-register LSB.
    pub const POWER_THRESHOLD_LSB_VOLT_SQUARED: u32 = 0x2DCD_5D38;

    /// Voltage-mode scale represented by one P1TH/P1TL or P2TH/P2TL threshold code, as binary32
    /// bits: four times the result-register LSB.
    pub const VOLTAGE_THRESHOLD_LSB_VOLTS: u32 = 0x3944_9BA6;

    /// Wraps a raw signed 24-bit ADC code, sign-extended to `i32`.
    pub fn from_raw(raw: i32) -> (result: Self)
        ensures
            result@ == raw,
    {
        PowerOrVoltage { raw }
    }

    /// Returns the raw signed 24-bit ADC code, sign-extended to `i32`.
    pub fn raw(self) -> (raw: i32)
        ensures
            raw == self@,
    {
        self.raw
    }

    /// The value that the code stands for.
    pub open spec fn spec_decode_power(self, shunt_ohms: Binary32) -> Binary32 {
        Binary32::of_integer(self@).product(Binary32 { bits: Self::POWER_LSB_VOLT_SQUARED }).quotient(shunt_ohms)
    }

    /// Decodes a power-mode P1/P2 result into watts.
    #[verifier::when_used_as_spec(spec_decode_power)]
    pub fn decode_power(self, shunt_ohms: Binary32) -> (value: Binary32)
        ensures
            value == self.spec_decode_power(shunt_ohms),
    {
        Binary32::from_integer(self.raw).multiply(Binary32::from_bits(Self::POWER_LSB_VOLT_SQUARED)).divide(shunt_ohms)
    }

    /// The value that the code stands for.
    pub open spec fn spec_decode_voltage(self) -> Binary32 {
        Binary32::of_integer(self@).product(Binary32 { bits: Self::VOLTAGE_LSB_VOLTS })
    }

    /// Decodes a voltage-mode P1/P2 result into volts.
    #[verifier::when_used_as_spec(spec_decode_voltage)]
    pub fn decode_voltage(self) -> (value: Binary32)
        ensures
            value == self.spec_decode_voltage(),
    {
        Binary32::from_integer(self.raw).multiply(Binary32::from_bits(Self::VOLTAGE_LSB_VOLTS))
    }
}

/// Raw BAT battery-voltage result.
#[derive(Copy, Clone, Eq, PartialEq, Structural, Debug)]
pub struct BatteryVoltage {
    raw: i16,
}

impl View for BatteryVoltage {
    type V = int;

    closed spec fn view(&self) -> int {
        self.raw as int
    }
}

impl BatteryVoltage {
    /// Voltage represented by one raw ADC code, as binary32 bits: 375e-6 V.
    pub const LSB_VOLTS: u32 = 0x39C4_9BA6;

    /// Wraps a raw signed 16-bit ADC code.
    pub fn from_raw(raw: i16) -> (result: Self)
        ensures
            result@ == raw,
    {
        BatteryVoltage { raw }
    }

    /// Returns the raw signed 16-bit ADC code.
    pub fn raw(self) -> (raw: i16)
        ensures
            raw == self@,
    {
        self.raw
    }

    /// The value that the code stands for.
    pub open spec fn spec_decode(self) -> Binary32 {
        Binary32::of_integer(self@).product(Binary32 { bits: Self::LSB_VOLTS })
    }

    /// Decodes the raw ADC code into battery voltage in volts.
    #[verifier::when_used_as_spec(spec_decode)]
    pub fn decode(self) -> (value: Binary32)
        ensures
            value == self.spec_decode(),
    {
        Binary32::from_integer(self.raw as i32).multiply(Binary32::from_bits(Self::LSB_VOLTS))
    }
}

/// Raw internal die-temperature result.
#[derive(Copy, Clone, Eq, PartialEq, Structural, Debug)]
pub struct DieTemperature {
    raw: i16,
}

impl View for DieTemperature {
    type V = int;

    closed spec fn view(&self) -> int {
        self.raw as int
    }
}

impl DieTemperature {
    /// Temperature represented by one raw ADC code, as binary32 bits: 0.2 K.
    pub const LSB_KELVIN: u32 = 0x3E4C_CCCD;

    /// Offset between the kelvin and Celsius temperature scales, as binary32 bits: 273.15 K.
    pub const ZERO_CELSIUS_KELVIN: u32 = 0x4388_9333;

    /// Wraps a raw signed 16-bit ADC code.
    pub fn from_raw(raw: i16) -> (result: Self)
        ensures
            result@ == raw,
    {
        DieTemperature { raw }
    }

    /// Returns the raw signed 16-bit ADC code.
    pub fn raw(self) -> (raw: i16)
        ensures
            raw == self@,
    {
        self.raw
    }

    /// The value that the code stands for.
    pub open spec fn spec_decode_kelvin(self) -> Binary32 {
        Binary32::of_integer(self@).product(Binary32 { bits: Self::LSB_KELVIN })
    }

    /// Decodes the raw ADC code into absolute temperature in kelvin.
    #[verifier::when_used_as_spec(spec_decode_kelvin)]
    pub fn decode_kelvin(self) -> (value: Binary32)
        ensures
            value == self.spec_decode_kelvin(),
    {
        Binary32::from_integer(self.raw as i32).multiply(Binary32::from_bits(Self::LSB_KELVIN))
    }

    /// The value that the code stands for.
    pub open spec fn spec_decode_celsius(self) -> Binary32 {
        Binary32::of_integer(self@).product(Binary32 { bits: Self::LSB_KELVIN }).sum(
            (Binary32 { bits: Self::ZERO_CELSIUS_KELVIN }).opposite(),
        )
    }

    /// Decodes the raw ADC code into temperature in degrees Celsius.
    #[verifier::when_used_as_spec(spec_decode_celsius)]
    pub fn decode_celsius(self) -> (value: Binary32)
        ensures
            value == self.spec_decode_celsius(),
    {
        self.decode_kelvin().plus(Binary32::from_bits(Self::ZERO_CELSIUS_KELVIN).negate())
    }
}

/// Raw A/DVCC supply-voltage result.
#[derive(Copy, Clone, Eq, PartialEq, Structural, Debug)]
pub struct SupplyVoltage {
    raw: i16,
}

impl View for SupplyVoltage {
    type V = int;

    closed spec fn view(&self) -> int {
        self.raw as int
    }
}

impl SupplyVoltage {
    /// Voltage represented by one raw ADC code, as binary32 bits: 2.26e-3 V.
    pub const LSB_VOLTS: u32 = 0x3B14_1C82;

    /// Wraps a raw signed 16-bit ADC code.
    pub fn from_raw(raw: i16) -> (result: Self)
        ensures
            result@ == raw,
    {
        SupplyVoltage { raw }
    }

    /// Returns the raw signed 16-bit ADC code.
    pub fn raw(self) -> (raw: i16)
        ensures
            raw == self@,
    {
        self.raw
    }

    /// The value that the code stands for.
    pub open spec fn spec_decode(self) -> Binary32 {
        Binary32::of_integer(self@).product(Binary32 { bits: Self::LSB_VOLTS })
    }

    /// Decodes the raw ADC code into supply voltage in volts.
    #[verifier::when_used_as_spec(spec_decode)]
    pub fn decode(self) -> (value: Binary32)
        ensures
            value == self.spec_decode(),
    {
        Binary32::from_integer(self.raw as i32).multiply(Binary32::from_bits(Self::LSB_VOLTS))
    }
}

/// Raw SLOT1/SLOT2 result.
///
/// The value represents either an auxiliary-input voltage or an NTC temperature, depending on
/// the corresponding `NTC1`/`NTC2` bit in
/// [`AdcConfiguration`](crate::registers::AdcConfiguration).
#[derive(Copy, Clone, Eq, PartialEq, Structural, Debug)]
pub struct SlotValue {
    raw: i16,
}

impl View for SlotValue {
    type V = int;

    closed spec fn view(&self) -> int {
        self.raw as int
    }
}

impl SlotValue {
    /// Voltage represented by one raw ADC code when NTC conversion is disabled, as binary32
    /// bits: 375e-6 V.
    pub const LSB_VOLTS: u32 = 0x39C4_9BA6;

    /// Temperature represented by one raw ADC code when NTC conversion is enabled, as binary32
    /// bits: 0.2 degrees Celsius.
    pub const LSB_DEGREES_CELSIUS: u32 = 0x3E4C_CCCD;

    /// Wraps a raw signed 16-bit ADC code.
    pub fn from_raw(raw: i16) -> (result: Self)
        ensures
            result@ == raw,
    {
        SlotValue { raw }
    }

    /// Returns the raw signed 16-bit ADC code.
    pub fn raw(self) -> (raw: i16)
        ensures
            raw == self@,
    {
        self.raw
    }

    /// The value that the code stands for.
    pub open spec fn spec_decode_voltage(self) -> Binary32 {
        Binary32::of_integer(self@).product(Binary32 { bits: Self::LSB_VOLTS })
    }

    /// Decodes a voltage-mode SLOT result into volts.
    #[verifier::when_used_as_spec(spec_decode_voltage)]
    pub fn decode_voltage(self) -> (value: Binary32)
        ensures
            value == self.spec_decode_voltage(),
    {
        Binary32::from_integer(self.raw as i32).multiply(Binary32::from_bits(Self::LSB_VOLTS))
    }

    /// The value that the code stands for.
    pub open spec fn spec_decode_temperature(self) -> Binary32 {
        Binary32::of_integer(self@).product(Binary32 { bits: Self::LSB_DEGREES_CELSIUS })
    }

    /// Decodes an NTC-mode SLOT result into degrees Celsius.
    #[verifier::when_used_as_spec(spec_decode_temperature)]
    pub fn decode_temperature(self) -> (value: Binary32)
        ensures
            value == self.spec_decode_temperature(),
    {
        Binary32::from_integer(self.raw as i32).multiply(Binary32::from_bits(Self::LSB_DEGREES_CELSIUS))
    }
}

/// Raw accumulated charge result from C1, C2 or C3.
#[derive(Copy, Clone, Eq, PartialEq, Structural, Debug)]
pub struct AccumulatedCharge {
    raw: i64,
}

impl View for AccumulatedCharge {
    type V = int;

    closed spec fn view(&self) -> int {
        self.raw as int
    }
}

impl AccumulatedCharge {
    /// Volt-seconds represented by one raw code with the internal clock or a 4 MHz crystal, as
    /// binary64 bits: 377.887e-12 Vs.
    pub const LSB_VOLT_SECONDS: u64 = 0x3DF9_F7DB_C09C_8296;

    /// Wraps a raw signed accumulator code, sign-extended to `i64` for 48-bit registers.
    pub fn from_raw(raw: i64) -> (result: Self)
        ensures
            result@ == raw,
    {
        AccumulatedCharge { raw }
    }

    /// Returns the raw signed accumulator code, sign-extended to `i64` for 48-bit registers.
    pub fn raw(self) -> (raw: i64)
        ensures
            raw == self@,
    {
        self.raw
    }

    /// The value that the code stands for.
    pub open spec fn spec_decode(self) -> Binary64 {
        Binary64::of_integer(self@).product(Binary64 { bits: Self::LSB_VOLT_SECONDS })
    }

    /// Decodes the result into volt-seconds for the internal clock or a 4 MHz crystal.
    ///
    /// With a freely configured external clock, use the LSB formula from datasheet Table 27
    /// instead because the scale depends on `fEXT`, `PRE` and `DIV`.
    #[verifier::when_used_as_spec(spec_decode)]
    pub fn decode(self) -> (value: Binary64)
        ensures
            value == self.spec_decode(),
    {
        Binary64::from_integer(self.raw).multiply(Binary64::from_bits(Self::LSB_VOLT_SECONDS))
    }

    /// The value that the code stands for.
    pub open spec fn spec_decode_coulombs(self, shunt_ohms: Binary64) -> Binary64 {
        Binary64::of_integer(self@).product(Binary64 { bits: Self::LSB_VOLT_SECONDS }).quotient(shunt_ohms)
    }

    /// Decodes the result into coulombs using the external shunt resistance.
    ///
    /// Pass the channel's shunt for C1/C2 and the channel-1 shunt for the weighted C3 sum.
    /// This scale applies to the internal clock or a 4 MHz crystal.
    #[verifier::when_used_as_spec(spec_decode_coulombs)]
    pub fn decode_coulombs(self, shunt_ohms: Binary64) -> (value: Binary64)
        ensures
            value == self.spec_decode_coulombs(shunt_ohms),
    {
        self.decode().divide(shunt_ohms)
    }
}

/// Raw accumulated energy result from E1, E2 or E4.
#[derive(Copy, Clone, Eq, PartialEq, Structural, Debug)]
pub struct AccumulatedEnergy {
    raw: i64,
}

impl View for AccumulatedEnergy {
    type V = int;

    closed spec fn view(&self) -> int {
        self.raw as int
    }
}

impl AccumulatedEnergy {
    /// Volt-squared-seconds represented by one raw code with the internal clock or a 4 MHz crystal,
    /// as binary64 bits: 2.32175e-9 V^2s.
    pub const LSB_VOLT_SQUARED_SECONDS: u64 = 0x3E23_F195_0DEA_4533;

    /// Wraps a raw signed accumulator code, sign-extended to `i64` for 48-bit registers.
    pub fn from_raw(raw: i64) -> (result: Self)
        ensures
            result@ == raw,
    {
        AccumulatedEnergy { raw }
    }

    /// Returns the raw signed accumulator code, sign-extended to `i64` for 48-bit registers.
    pub fn raw(self) -> (raw: i64)
        ensures
            raw == self@,
    {
        self.raw
    }

    /// The value that the code stands for.
    pub open spec fn spec_decode(self) -> Binary64 {
        Binary64::of_integer(self@).product(Binary64 { bits: Self::LSB_VOLT_SQUARED_SECONDS })
    }

    /// Decodes the result into volt-squared-seconds for the internal clock or a 4 MHz crystal.
    ///
    /// With a freely configured external clock, use the LSB formula from datasheet Table 27
    /// instead because the scale depends on `fEXT`, `PRE` and `DIV`.
    #[verifier::when_used_as_spec(spec_decode)]
    pub fn decode(self) -> (value: Binary64)
        ensures
            value == self.spec_decode(),
    {
        Binary64::from_integer(self.raw).multiply(Binary64::from_bits(Self::LSB_VOLT_SQUARED_SECONDS))
    }

    /// The value that the code stands for.
    pub open spec fn spec_decode_joules(self, shunt_ohms: Binary64) -> Binary64 {
        Binary64::of_integer(self@).product(Binary64 { bits: Self::LSB_VOLT_SQUARED_SECONDS }).quotient(shunt_ohms)
    }

    /// Decodes the result into joules using the external shunt resistance.
    ///
    /// Pass the channel's shunt for E1/E2 and the channel-1 shunt for the weighted E4 sum.
    /// This scale applies to the internal clock or a 4 MHz crystal.
    #[verifier::when_used_as_spec(spec_decode_joules)]
    pub fn decode_joules(self, shunt_ohms: Binary64) -> (value: Binary64)
        ensures
            value == self.spec_decode_joules(shunt_ohms),
    {
        self.decode().divide(shunt_ohms)
    }
}

/// Raw accumulated time-base result from TB1 through TB4.
#[derive(Copy, Clone, Eq, PartialEq, Structural, Debug)]
pub struct AccumulatedTime {
    raw: u32,
}

impl View for AccumulatedTime {
    type V = int;

    closed spec fn view(&self) -> int {
        self.raw as int
    }
}

impl AccumulatedTime {
    /// Seconds represented by one raw code with the internal clock or a 4 MHz crystal, as binary64
    /// bits: 397.777e-6 s.
    pub const LSB_SECONDS: u64 = 0x3F3A_1197_34C3_08DC;

    /// Wraps a raw unsigned 32-bit accumulator code.
    pub fn from_raw(raw: u32) -> (result: Self)
        ensures
            result@ == raw,
    {
        AccumulatedTime { raw }
    }

    /// Returns the raw unsigned 32-bit accumulator code.
    pub fn raw(self) -> (raw: u32)
        ensures
            raw == self@,
    {
        self.raw
    }

    /// The value that the code stands for.
    pub open spec fn spec_decode(self) -> Binary64 {
        Binary64::of_integer(self@).product(Binary64 { bits: Self::LSB_SECONDS })
    }

    /// Decodes the result into seconds for the internal clock or a 4 MHz crystal.
    ///
    /// With a freely configured external clock, use the LSB formula from datasheet Table 27
    /// instead because the scale depends on `fEXT`, `PRE` and `DIV`.
    #[verifier::when_used_as_spec(spec_decode)]
    pub fn decode(self) -> (value: Binary64)
        ensures
            value == self.spec_decode(),
    {
        Binary64::from_integer(self.raw as i64).multiply(Binary64::from_bits(Self::LSB_SECONDS))
    }
}

/// Coherent snapshot of one channel's charge / energy / time-base accumulators. All three
/// share a 16-byte row, so one burst reads them from the same `CONT` cycle (no lock needed).
#[derive(Copy, Clone, Eq, PartialEq, Structural, Debug)]
pub struct Accumulators {
    /// Charge (48-bit two's-complement).
    pub charge: AccumulatedCharge,
    /// Energy (48-bit two's-complement).
    pub energy: AccumulatedEnergy,
    /// Time base (32-bit unsigned).
    pub time: AccumulatedTime,
}

/// Mathematical view of [`Accumulators`].
pub struct AccumulatorsView {
    pub charge: int,
    pub energy: int,
    pub time: int,
}

impl View for Accumulators {
    type V = AccumulatorsView;

    open spec fn view(&self) -> AccumulatorsView {
        AccumulatorsView { charge: self.charge@, energy: self.energy@, time: self.time@ }
    }
}

/// The results with a binary32 scale are their code times their LSB, but for one rounding. A code
/// of a 24-bit result has at most 24 bits.
pub proof fn results_are_codes_times_lsbs(
    current: CurrentSenseVoltage,
    average: AveragedCurrentSenseVoltage,
    power: PowerOrVoltage,
    battery: BatteryVoltage,
    die: DieTemperature,
    supply: SupplyVoltage,
    slot: SlotValue,
)
    requires
        -0x80_0000 <= current@ < 0x80_0000,
        -0x80_0000 <= average@ < 0x80_0000,
        -0x80_0000 <= power@ < 0x80_0000,
    ensures
        crate::binary::is_scaled_32(current.decode(), current@, Binary32 { bits: CurrentSenseVoltage::LSB_VOLTS }),
        crate::binary::is_scaled_32(average.decode(), average@, Binary32 { bits: AveragedCurrentSenseVoltage::LSB_VOLTS }),
        crate::binary::is_scaled_32(power.decode_voltage(), power@, Binary32 { bits: PowerOrVoltage::VOLTAGE_LSB_VOLTS }),
        crate::binary::is_scaled_32(battery.decode(), battery@, Binary32 { bits: BatteryVoltage::LSB_VOLTS }),
        crate::binary::is_scaled_32(die.decode_kelvin(), die@, Binary32 { bits: DieTemperature::LSB_KELVIN }),
        crate::binary::is_scaled_32(supply.decode(), supply@, Binary32 { bits: SupplyVoltage::LSB_VOLTS }),
        crate::binary::is_scaled_32(slot.decode_voltage(), slot@, Binary32 { bits: SlotValue::LSB_VOLTS }),
        crate::binary::is_scaled_32(slot.decode_temperature(), slot@, Binary32 { bits: SlotValue::LSB_DEGREES_CELSIUS }),
{
    crate::binary::scaling_is_close_32(current@, Binary32 { bits: CurrentSenseVoltage::LSB_VOLTS });
    crate::binary::scaling_is_close_32(average@, Binary32 { bits: AveragedCurrentSenseVoltage::LSB_VOLTS });
    crate::binary::scaling_is_close_32(power@, Binary32 { bits: PowerOrVoltage::VOLTAGE_LSB_VOLTS });
    crate::binary::scaling_is_close_32(battery@, Binary32 { bits: BatteryVoltage::LSB_VOLTS });
    crate::binary::scaling_is_close_32(die@, Binary32 { bits: DieTemperature::LSB_KELVIN });
    crate::binary::scaling_is_close_32(supply@, Binary32 { bits: SupplyVoltage::LSB_VOLTS });
    crate::binary::scaling_is_close_32(slot@, Binary32 { bits: SlotValue::LSB_VOLTS });
    crate::binary::scaling_is_close_32(slot@, Binary32 { bits: SlotValue::LSB_DEGREES_CELSIUS });
}

/// A power in watts is its code times its LSB, but for one rounding, divided by the shunt, but for
/// another one.
pub proof fn powers_are_divided_by_the_shunt(power: PowerOrVoltage, shunt_ohms: Binary32)
    requires
        -0x80_0000 <= power@ < 0x80_0000,
        shunt_ohms.is_positive(),
        power.decode_power(shunt_ohms).is_finite(),
    ensures
        exists|volts_squared: Binary32|
            #![trigger volts_squared.units()]
            {
                let watts = power.decode_power(shunt_ohms);
                let gap = volts_squared.units() * crate::rounding::power(149) - watts.units() * shunt_ohms.units();
                let bound = watts.size() * shunt_ohms.size() + crate::rounding::power(23) * shunt_ohms.size();
                &&& crate::binary::is_scaled_32(
                    volts_squared,
                    power@,
                    Binary32 { bits: PowerOrVoltage::POWER_LSB_VOLT_SQUARED },
                )
                &&& -bound <= 2 * crate::rounding::power(23) * gap <= bound
            },
{
    let lsb = Binary32 { bits: PowerOrVoltage::POWER_LSB_VOLT_SQUARED };
    let volts_squared = Binary32::of_integer(power@).product(lsb);
    crate::binary::scaling_is_close_32(power@, lsb);
    crate::binary::quotient_is_close_32(volts_squared, shunt_ohms);
    let at = volts_squared.units();
}

/// A die temperature in degrees Celsius is that in kelvin less 273.15 K, but for one rounding.
pub proof fn celsius_is_kelvin_less_the_offset(die: DieTemperature)
    requires
        die.decode_celsius().is_finite(),
    ensures
        ({
            let kelvin = die.decode_kelvin();
            let celsius = die.decode_celsius();
            let offset = Binary32 { bits: DieTemperature::ZERO_CELSIUS_KELVIN };
            let bound = celsius.size() + crate::rounding::power(23);
            -bound <= 2 * crate::rounding::power(23) * (kelvin.units() - offset.units() - celsius.units()) <= bound
        }),
{
    let lsb = Binary32 { bits: DieTemperature::LSB_KELVIN };
    let offset = Binary32 { bits: DieTemperature::ZERO_CELSIUS_KELVIN };
    crate::binary::scaling_is_close_32(die@, lsb);
    crate::binary::opposite_is_negation(offset);
    crate::binary::sum_is_close(die.decode_kelvin(), offset.opposite());
}

/// The accumulated results are their code times their LSB, but for one rounding, for every code
/// of at most 53 bits, which every code of 48 bits is.
pub proof fn accumulated_results_are_codes_times_lsbs(
    charge: AccumulatedCharge,
    energy: AccumulatedEnergy,
    time: AccumulatedTime,
)
    requires
        -0x20_0000_0000_0000 < charge@ < 0x20_0000_0000_0000,
        -0x20_0000_0000_0000 < energy@ < 0x20_0000_0000_0000,
    ensures
        crate::binary::is_scaled_64(charge.decode(), charge@, Binary64 { bits: AccumulatedCharge::LSB_VOLT_SECONDS }),
        crate::binary::is_scaled_64(energy.decode(), energy@, Binary64 { bits: AccumulatedEnergy::LSB_VOLT_SQUARED_SECONDS }),
        crate::binary::is_scaled_64(time.decode(), time@, Binary64 { bits: AccumulatedTime::LSB_SECONDS }),
{
    crate::binary::scaling_is_close_64(charge@, Binary64 { bits: AccumulatedCharge::LSB_VOLT_SECONDS });
    crate::binary::scaling_is_close_64(energy@, Binary64 { bits: AccumulatedEnergy::LSB_VOLT_SQUARED_SECONDS });
    crate::binary::scaling_is_close_64(time@, Binary64 { bits: AccumulatedTime::LSB_SECONDS });
}

/// Coulombs and joules are the volt-seconds and the volt-squared-seconds divided by the shunt, but
/// for one rounding.
pub proof fn charges_and_energies_are_divided_by_the_shunt(
    charge: AccumulatedCharge,
    energy: AccumulatedEnergy,
    shunt_ohms: Binary64,
)
    requires
        -0x20_0000_0000_0000 < charge@ < 0x20_0000_0000_0000,
        -0x20_0000_0000_0000 < energy@ < 0x20_0000_0000_0000,
        shunt_ohms.is_positive(),
        charge.decode_coulombs(shunt_ohms).is_finite(),
        energy.decode_joules(shunt_ohms).is_finite(),
    ensures
        ({
            let one = crate::rounding::power(1074);
            let scale = crate::rounding::power(52);
            let coulombs = charge.decode_coulombs(shunt_ohms);
            let joules = energy.decode_joules(shunt_ohms);
            let charge_gap = charge.decode().units() * one - coulombs.units() * shunt_ohms.units();
            let energy_gap = energy.decode().units() * one - joules.units() * shunt_ohms.units();
            let charge_bound = coulombs.size() * shunt_ohms.size() + scale * shunt_ohms.size();
            let energy_bound = joules.size() * shunt_ohms.size() + scale * shunt_ohms.size();
            &&& -charge_bound <= 2 * scale * charge_gap <= charge_bound
            &&& -energy_bound <= 2 * scale * energy_gap <= energy_bound
        }),
{
    crate::binary::scaling_is_close_64(charge@, Binary64 { bits: AccumulatedCharge::LSB_VOLT_SECONDS });
    crate::binary::scaling_is_close_64(energy@, Binary64 { bits: AccumulatedEnergy::LSB_VOLT_SQUARED_SECONDS });
    crate::binary::quotient_is_close_64(charge.decode(), shunt_ohms);
    crate::binary::quotient_is_close_64(energy.decode(), shunt_ohms);
}

/// The LSB of a current or power threshold is four times that of the result, and the LSB of an
/// averaged current a quarter of it.
pub proof fn threshold_codes_are_four_result_codes()
    ensures
        (Binary32 { bits: CurrentSenseVoltage::THRESHOLD_LSB_VOLTS }).units() == 4 * (Binary32 {
            bits: CurrentSenseVoltage::LSB_VOLTS,
        }).units(),
        (Binary32 { bits: CurrentSenseVoltage::LSB_VOLTS }).units() == 4 * (Binary32 {
            bits: AveragedCurrentSenseVoltage::LSB_VOLTS,
        }).units(),
        (Binary32 { bits: PowerOrVoltage::POWER_THRESHOLD_LSB_VOLT_SQUARED }).units() == 4 * (Binary32 {
            bits: PowerOrVoltage::POWER_LSB_VOLT_SQUARED,
        }).units(),
        (Binary32 { bits: PowerOrVoltage::VOLTAGE_THRESHOLD_LSB_VOLTS }).units() == 4 * (Binary32 {
            bits: PowerOrVoltage::VOLTAGE_LSB_VOLTS,
        }).units(),
{
    crate::binary::two_exponents_are_a_factor_of_four(CurrentSenseVoltage::LSB_VOLTS);
    crate::binary::two_exponents_are_a_factor_of_four(AveragedCurrentSenseVoltage::LSB_VOLTS);
    crate::binary::two_exponents_are_a_factor_of_four(PowerOrVoltage::POWER_LSB_VOLT_SQUARED);
    crate::binary::two_exponents_are_a_factor_of_four(PowerOrVoltage::VOLTAGE_LSB_VOLTS);
}

/// The accumulators that a 16-byte row holds: six bytes of charge, six of energy and four of
/// time.
pub open spec fn accumulators_in(row: Seq<u8>) -> AccumulatorsView {
    AccumulatorsView {
        charge: crate::bytes::signed(row.subrange(0, 6)),
        energy: crate::bytes::signed(row.subrange(6, 12)),
        time: crate::bytes::unsigned(row.subrange(12, 16)) as int,
    }
}

} // verus!
