//! LTC2949 direct-register client.
//!
//! This module contains the high-level [`Client`] trait, the concrete [`LTC2949`] client and
//! helper constants for host-owned timing.
//!
//! The driver never blocks. Operations with mandatory settling or acknowledge time are split
//! into phases: the first call starts the bus/device action and returns the number of
//! microseconds the host must wait before issuing the next phase.
//!
//! * [`T_BOOT_US`] is returned by [`Client::start_wake_up`] before [`Client::confirm_wake_up`].
//! * [`T_READY_US`] is returned by [`Client::wake_isospi`] before the next transaction.
//! * [`T_MLCK_US`] is returned by [`Client::request_memory_lock`] before reading a coherent
//!   locked snapshot.
use vstd::prelude::*;

use crate::binary::{Binary32, Binary64};
use crate::bus::SpiTranscript;
use crate::float24::Float24;
use crate::link::{Link, LinkView};
use crate::polling::{NoPolling, PollMethod};

pub use crate::config::{Channel, MuxGainSlot, MuxInput, NtcConfig, OverCurrentConfig, ShuntTcConfig};
pub use crate::dcmd::DcmdId;
pub use crate::error::Error;
pub use crate::fifo::{FifoSample, FifoTag};
pub use crate::measurements::{
    AccumulatedCharge, AccumulatedEnergy, AccumulatedTime, Accumulators, AccumulatorsView, AveragedCurrentSenseVoltage,
    BatteryVoltage, CurrentSenseVoltage, DieTemperature, PowerOrVoltage, SlotValue, SupplyVoltage,
};
pub use crate::registers::{
    AdcConfiguration, CAlerts, CEOFAlerts, EAlerts, ExtFaultsRegister, FastControlRegister, FaultsRegister, IPAlerts,
    OpsControlRegister, Page, RegAddressP0, RegAddressP1, RegControlRegister, StatusRegister, TBAlerts, VCCAlerts,
    VTAlerts,
};
pub use crate::thresholds::{AccumulatorClock, ChargeAccumulator, EnergyAccumulator, TimeBase};

verus! {

/// Worst-case core boot time from SLEEP/power-up to STANDBY (datasheet tBOOT).
/// Returned by [`Client::start_wake_up`].
pub const T_BOOT_US: u32 = 100_000;

/// isoSPI port start-up time after a wake edge (datasheet tREADY, 10 us; doubled for margin).
/// Returned by [`Client::wake_isospi`].
pub const T_READY_US: u32 = 20;

/// Worst-case memory-lock acknowledge time (datasheet tMLCK, MEASURE mode; 40 ms in
/// STANDBY). Returned by [`Client::request_memory_lock`].
pub const T_MLCK_US: u32 = 130_000;

/// The result of an operation that leaves the host a wait of `wait_us` when it succeeds.
pub open spec fn in_time<E>(outcome: Result<(), Error<E>>, wait_us: u32) -> Result<u32, Error<E>> {
    match outcome {
        Ok(_) => Ok(wait_us),
        Err(error) => Err(error),
    }
}

/// The register of the gain correction of a sense resistor.
pub open spec fn shunt_gain_register(channel: Channel) -> RegAddressP1 {
    match channel {
        Channel::One => RegAddressP1::Rs1Gc,
        Channel::Two => RegAddressP1::Rs2Gc,
    }
}

/// The registers of a multiplexer gain correction and of its input assignment.
pub open spec fn mux_gain_registers(slot: MuxGainSlot) -> (RegAddressP1, RegAddressP1) {
    match slot {
        MuxGainSlot::One => (RegAddressP1::Mux1Gc, RegAddressP1::MuxNset1),
        MuxGainSlot::Two => (RegAddressP1::Mux2Gc, RegAddressP1::MuxNset2),
        MuxGainSlot::Three => (RegAddressP1::Mux3Gc, RegAddressP1::MuxNset3),
        MuxGainSlot::Four => (RegAddressP1::Mux4Gc, RegAddressP1::MuxNset4),
    }
}

/// The register of the high threshold of a current.
pub open spec fn current_threshold_register(channel: Channel) -> RegAddressP1 {
    match channel {
        Channel::One => RegAddressP1::I1Th,
        Channel::Two => RegAddressP1::I2Th,
    }
}

/// The register of the high threshold of a power.
pub open spec fn power_threshold_register(channel: Channel) -> RegAddressP1 {
    match channel {
        Channel::One => RegAddressP1::P1Th,
        Channel::Two => RegAddressP1::P2Th,
    }
}

/// The register of the high threshold of a SLOT.
pub open spec fn slot_threshold_register(slot: Channel) -> RegAddressP1 {
    match slot {
        Channel::One => RegAddressP1::Slot1Th,
        Channel::Two => RegAddressP1::Slot2Th,
    }
}

/// The register of the high threshold of a time base.
pub open spec fn time_threshold_register(time_base: TimeBase) -> RegAddressP1 {
    match time_base {
        TimeBase::Time1 => RegAddressP1::Tb1Th,
        TimeBase::Time2 => RegAddressP1::Tb2Th,
        TimeBase::Time3 => RegAddressP1::Tb3Th,
        TimeBase::Time4 => RegAddressP1::Tb4Th,
    }
}

impl<E> LinkView<E> {
    /// Writes a gain factor as Float24, if it is positive and finite.
    pub open spec fn write_gain(self, addr: u8, factor: Binary32) -> (Result<(), Error<E>>, Self) {
        if factor.is_positive() {
            self.write_register(Page::Page1, addr, crate::float24::bytes_of(factor))
        } else {
            (Err(Error::InvalidGainCorrection), self)
        }
    }

    /// Writes a ratio as Float24, if both of its sides and the ratio are positive and finite.
    pub open spec fn write_ratio(self, addr: u8, numerator: Binary32, denominator: Binary32) -> (
        Result<(), Error<E>>,
        Self,
    ) {
        match crate::thresholds::sound_ratio(numerator, denominator) {
            Some(ratio) => self.write_gain(addr, ratio),
            None => (Err(Error::InvalidGainCorrection), self),
        }
    }

    /// Writes a multiplexer gain factor as Float24 and then the inputs it applies to, if the
    /// factor is positive and finite.
    pub open spec fn write_mux_gain(
        self,
        slot: MuxGainSlot,
        factor: Binary32,
        negative: MuxInput,
        positive: MuxInput,
    ) -> (Result<(), Error<E>>, Self) {
        if factor.is_positive() {
            self.write_two_registers(
                Page::Page1,
                mux_gain_registers(slot).0.addr(),
                crate::float24::bytes_of(factor),
                mux_gain_registers(slot).1.addr(),
                seq![negative.code(), positive.code()],
            )
        } else {
            (Err(Error::InvalidGainCorrection), self)
        }
    }

    /// Writes a pair of 16-bit thresholds over `lsb` in one burst, the high one first.
    pub open spec fn write_pair_16(self, addr: u8, low: Binary64, high: Binary64, lsb: Option<Binary64>) -> (
        Result<(), Error<E>>,
        Self,
    ) {
        match lsb {
            Some(lsb) => match crate::thresholds::pair_bytes(low, high, lsb, 2, i16::MIN as int, i16::MAX as int) {
                Some((first, second)) => self.write_register(Page::Page1, addr, first + second),
                None => (Err(Error::InvalidThreshold), self),
            },
            None => (Err(Error::InvalidThreshold), self),
        }
    }

    /// Writes a pair of 48-bit thresholds over `lsb` in one burst, the high one first.
    pub open spec fn write_pair_48(self, addr: u8, low: Binary64, high: Binary64, lsb: Binary64) -> (
        Result<(), Error<E>>,
        Self,
    ) {
        match crate::thresholds::pair_bytes(
            low,
            high,
            lsb,
            6,
            crate::thresholds::MIN_48 as int,
            crate::thresholds::MAX_48 as int,
        ) {
            Some((first, second)) => self.write_register(Page::Page1, addr, first + second),
            None => (Err(Error::InvalidThreshold), self),
        }
    }

    /// Writes a pair of 64-bit thresholds over `lsb` in two bursts, the high one first.
    pub open spec fn write_pair_64(
        self,
        high_addr: u8,
        low_addr: u8,
        low: Binary64,
        high: Binary64,
        lsb: Binary64,
    ) -> (Result<(), Error<E>>, Self) {
        match crate::thresholds::pair_bytes(low, high, lsb, 8, i64::MIN as int, i64::MAX as int) {
            Some((first, second)) => self.write_two_registers(Page::Page1, high_addr, first, low_addr, second),
            None => (Err(Error::InvalidThreshold), self),
        }
    }

    /// Writes the thresholds of a charge accumulator, if clock and shunt are sound.
    pub open spec fn write_charge_thresholds(
        self,
        accumulator: ChargeAccumulator,
        low: Binary64,
        high: Binary64,
        shunt_ohms: Binary64,
        clock: AccumulatorClock,
    ) -> (Result<(), Error<E>>, Self) {
        match charge_lsb(shunt_ohms, clock) {
            None => (Err(Error::InvalidThreshold), self),
            Some(lsb) => match accumulator {
                ChargeAccumulator::Charge1 => self.write_pair_48(RegAddressP1::C1Th.addr(), low, high, lsb),
                ChargeAccumulator::Charge2 => self.write_pair_48(RegAddressP1::C2Th.addr(), low, high, lsb),
                ChargeAccumulator::Charge3 => self.write_pair_64(
                    RegAddressP1::C3Th.addr(),
                    RegAddressP1::C3Tl.addr(),
                    low,
                    high,
                    lsb,
                ),
            },
        }
    }

    /// Writes the thresholds of an energy accumulator, if clock and shunt are sound.
    pub open spec fn write_energy_thresholds(
        self,
        accumulator: EnergyAccumulator,
        low: Binary64,
        high: Binary64,
        shunt_ohms: Binary64,
        clock: AccumulatorClock,
    ) -> (Result<(), Error<E>>, Self) {
        match energy_lsb(shunt_ohms, clock) {
            None => (Err(Error::InvalidThreshold), self),
            Some(lsb) => match accumulator {
                EnergyAccumulator::Energy1 => self.write_pair_48(RegAddressP1::E1Th.addr(), low, high, lsb),
                EnergyAccumulator::Energy2 => self.write_pair_48(RegAddressP1::E2Th.addr(), low, high, lsb),
                EnergyAccumulator::Energy4 => self.write_pair_64(
                    RegAddressP1::E4Th.addr(),
                    RegAddressP1::E4Tl.addr(),
                    low,
                    high,
                    lsb,
                ),
            },
        }
    }

    /// Writes the 32-bit threshold of a time base, if the clock is sound.
    pub open spec fn write_time_threshold(self, time_base: TimeBase, seconds: Binary64, clock: AccumulatorClock) -> (
        Result<(), Error<E>>,
        Self,
    ) {
        match crate::thresholds::lsbs_under(clock) {
            None => (Err(Error::InvalidThreshold), self),
            Some(lsbs) => match crate::thresholds::unsigned_code(seconds, lsbs.time, u32::MAX as int) {
                None => (Err(Error::InvalidThreshold), self),
                Some(code) => self.write_register(
                    Page::Page1,
                    time_threshold_register(time_base).addr(),
                    crate::bytes::encoded(code, 4),
                ),
            },
        }
    }
}

/// The operations of the clients that write one register, a gain correction or a pair of
/// thresholds.
impl<E> LinkView<E> {
    /// Confirms the wake-up.
    pub open spec fn confirm_wake_up(self) -> (
        Result<(), Error<E>>,
        Self,
    ) {
        self.write_register(Page::Page0, RegAddressP0::WkupAck.addr(), seq![0x00u8])
    }

    /// Writes the operation control register.
    pub open spec fn write_opctrl(self, byte: u8) -> (
        Result<(), Error<E>>,
        Self,
    ) {
        self.write_register(Page::Page0, RegAddressP0::OpCtrl.addr(), seq![byte])
    }

    /// Writes the fast control register.
    pub open spec fn write_factrl(self, byte: u8) -> (
        Result<(), Error<E>>,
        Self,
    ) {
        self.write_register(Page::Page0, RegAddressP0::FaCtrl.addr(), seq![byte])
    }

    /// Writes the ADC configuration register.
    pub open spec fn write_adcconf(self, byte: u8) -> (
        Result<(), Error<E>>,
        Self,
    ) {
        self.write_register(Page::Page1, RegAddressP1::AdcConf.addr(), seq![byte])
    }

    /// Writes the inputs of the fast AUX multiplexer in one burst.
    pub open spec fn write_fast_aux_mux(self, mux_n: u8, mux_p: u8) -> (
        Result<(), Error<E>>,
        Self,
    ) {
        self.write_register(Page::Page0, RegAddressP0::FaMuxN.addr(), seq![mux_n, mux_p])
    }

    /// Writes the GPIO control register.
    pub open spec fn write_gpio_ctrl(self, gpio: u8) -> (
        Result<(), Error<E>>,
        Self,
    ) {
        self.write_register(Page::Page0, RegAddressP0::FGpioCtrl.addr(), seq![gpio])
    }

    /// Writes the GPIO5 control mode.
    pub open spec fn write_gpio5_config(self, config: u8) -> (
        Result<(), Error<E>>,
        Self,
    ) {
        self.write_register(Page::Page0, RegAddressP0::FCurGpioCtrl.addr(), seq![config])
    }

    /// Writes the GPIO4 heartbeat.
    pub open spec fn write_gpio4_hb(self, hb: bool) -> (
        Result<(), Error<E>>,
        Self,
    ) {
        self.write_gpio5_config(
            if hb {
                1
            } else {
                0
            },
        )
    }

    /// Writes the control registers of both overcurrent comparators.
    pub open spec fn write_occ_config(self, config1: OverCurrentConfig, config2: OverCurrentConfig) -> (
        Result<(), Error<E>>,
        Self,
    ) {
        self.write_two_registers(
            Page::Page0,
            RegAddressP0::Occ1Ctrl.addr(),
            seq![config1.byte()],
            RegAddressP0::Occ2Ctrl.addr(),
            seq![config2.byte()],
        )
    }

    /// Writes the gain correction of a sense resistor.
    pub open spec fn write_shunt_gain(self, channel: Channel, factor: Binary32) -> (
        Result<(), Error<E>>,
        Self,
    ) {
        self.write_gain(shunt_gain_register(channel).addr(), factor)
    }

    /// Writes the nominal over the actual resistance of a sense resistor as its gain correction.
    pub open spec fn write_shunt_gain_from(self, channel: Channel, nominal: Binary32, actual: Binary32) -> (
        Result<(), Error<E>>,
        Self,
    ) {
        self.write_ratio(shunt_gain_register(channel).addr(), nominal, actual)
    }

    /// Writes the ratio of the two sense resistors.
    pub open spec fn write_shunt_ratio(self, rs1: Binary32, rs2: Binary32) -> (
        Result<(), Error<E>>,
        Self,
    ) {
        self.write_ratio(RegAddressP1::RsRatio.addr(), rs1, rs2)
    }

    /// Writes the gain correction of the battery divider.
    pub open spec fn write_battery_gain(self, factor: Binary32) -> (
        Result<(), Error<E>>,
        Self,
    ) {
        self.write_gain(RegAddressP1::BatGc.addr(), factor)
    }

    /// Writes the thresholds of a current.
    pub open spec fn write_current_thresholds(self, channel: Channel, low: Binary32, high: Binary32, shunt_ohms: Binary32) -> (
        Result<(), Error<E>>,
        Self,
    ) {
        self.write_pair_16(
            current_threshold_register(channel).addr(),
            low.widened(),
            high.widened(),
            crate::thresholds::lsb_over_shunt(lsb_of(CurrentSenseVoltage::THRESHOLD_LSB_VOLTS), shunt_ohms.widened()),
        )
    }

    /// Writes the thresholds of a power.
    pub open spec fn write_power_thresholds(self, channel: Channel, low: Binary32, high: Binary32, shunt_ohms: Binary32) -> (
        Result<(), Error<E>>,
        Self,
    ) {
        self.write_pair_16(
            power_threshold_register(channel).addr(),
            low.widened(),
            high.widened(),
            crate::thresholds::lsb_over_shunt(
                lsb_of(PowerOrVoltage::POWER_THRESHOLD_LSB_VOLT_SQUARED),
                shunt_ohms.widened(),
            ),
        )
    }

    /// Writes the thresholds of a power result that holds a voltage.
    pub open spec fn write_power_as_voltage_thresholds(self, channel: Channel, low: Binary32, high: Binary32) -> (
        Result<(), Error<E>>,
        Self,
    ) {
        self.write_pair_16(
            power_threshold_register(channel).addr(),
            low.widened(),
            high.widened(),
            Some(lsb_of(PowerOrVoltage::VOLTAGE_THRESHOLD_LSB_VOLTS)),
        )
    }

    /// Writes the thresholds of the battery voltage.
    pub open spec fn write_battery_thresholds(self, low: Binary32, high: Binary32) -> (
        Result<(), Error<E>>,
        Self,
    ) {
        self.write_pair_16(
            RegAddressP1::BatTh.addr(),
            low.widened(),
            high.widened(),
            Some(lsb_of(BatteryVoltage::LSB_VOLTS)),
        )
    }

    /// Writes the thresholds of the die temperature, which the device holds in kelvin.
    pub open spec fn write_temperature_thresholds(self, low: Binary32, high: Binary32) -> (
        Result<(), Error<E>>,
        Self,
    ) {
        self.write_pair_16(
            RegAddressP1::TempTh.addr(),
            crate::thresholds::kelvin(low),
            crate::thresholds::kelvin(high),
            Some(lsb_of(DieTemperature::LSB_KELVIN)),
        )
    }

    /// Writes the thresholds of the supply voltage.
    pub open spec fn write_vcc_thresholds(self, low: Binary32, high: Binary32) -> (
        Result<(), Error<E>>,
        Self,
    ) {
        self.write_pair_16(
            RegAddressP1::VccTh.addr(),
            low.widened(),
            high.widened(),
            Some(lsb_of(SupplyVoltage::LSB_VOLTS)),
        )
    }

    /// Writes the thresholds of a SLOT that holds a voltage.
    pub open spec fn write_slot_voltage_thresholds(self, slot: Channel, low: Binary32, high: Binary32) -> (
        Result<(), Error<E>>,
        Self,
    ) {
        self.write_pair_16(
            slot_threshold_register(slot).addr(),
            low.widened(),
            high.widened(),
            Some(lsb_of(SlotValue::LSB_VOLTS)),
        )
    }

    /// Writes the thresholds of a SLOT that holds a temperature.
    pub open spec fn write_slot_temperature_thresholds(self, slot: Channel, low: Binary32, high: Binary32) -> (
        Result<(), Error<E>>,
        Self,
    ) {
        self.write_pair_16(
            slot_threshold_register(slot).addr(),
            low.widened(),
            high.widened(),
            Some(lsb_of(SlotValue::LSB_DEGREES_CELSIUS)),
        )
    }
}

/// The charge of one accumulator code, if clock and shunt are sound.
pub open spec fn charge_lsb(shunt_ohms: Binary64, clock: AccumulatorClock) -> Option<Binary64> {
    match crate::thresholds::lsbs_under(clock) {
        Some(lsbs) => crate::thresholds::lsb_over_shunt(lsbs.charge, shunt_ohms),
        None => None,
    }
}

/// The energy of one accumulator code, if clock and shunt are sound.
pub open spec fn energy_lsb(shunt_ohms: Binary64, clock: AccumulatorClock) -> Option<Binary64> {
    match crate::thresholds::lsbs_under(clock) {
        Some(lsbs) => crate::thresholds::lsb_over_shunt(lsbs.energy, shunt_ohms),
        None => None,
    }
}

/// The binary32 number with the bits `bits`, in binary64.
pub open spec fn lsb_of(bits: u32) -> Binary64 {
    (Binary32 { bits }).widened()
}

/// High-level LTC2949 operation set, the dependency-injection seam for hosts. FIFO drains stay
/// on [`LTC2949`].
pub trait Client {
    type Error;

    /// Starts wake-up (datasheet Figure 20): pulses the isoSPI edge and invalidates the page
    /// cache. Returns the wait ([`T_BOOT_US`]) to observe before [`confirm_wake_up`](Self::confirm_wake_up).
    fn start_wake_up(&mut self) -> Result<u32, Self::Error>;

    /// Completes wake-up by writing WKUPACK so the device does not auto-sleep after `tACKN`
    /// (1 s). Call once the [`start_wake_up`](Self::start_wake_up) wait has elapsed.
    fn confirm_wake_up(&mut self) -> Result<(), Self::Error>;

    /// Re-wakes only the isoSPI port (idles after `tIDLE` = 6.4 ms), leaving the core alone.
    /// Returns the wait ([`T_READY_US`]) before the next transaction. Cell monitors share this.
    fn wake_isospi(&mut self) -> Result<u32, Self::Error>;

    /// Writes the Operation Control register (PAGE0, 0xF0).
    fn write_opctrl(&mut self, value: OpsControlRegister) -> Result<(), Self::Error>;

    /// Reads the Operation Control register.
    fn read_opctrl(&mut self) -> Result<OpsControlRegister, Self::Error>;

    /// Writes the Fast Control register (PAGE0, 0xF5).
    fn write_factrl(&mut self, value: FastControlRegister) -> Result<(), Self::Error>;

    /// Writes the ADC Configuration register (PAGE1, 0xDF). Takes effect only after an
    /// ADJUPD pulse on OPCTRL while the core is in STANDBY.
    fn write_adcconf(&mut self, value: AdcConfiguration) -> Result<(), Self::Error>;

    /// Writes the Float24 gain-correction factor for sense resistor 1 or 2 (`RS1GC` or
    /// `RS2GC`, Table 72). The factor is dimensionless and must be positive and finite.
    /// Apply the change with an `ADJUPD` pulse while the device is in STANDBY.
    fn write_shunt_gain_correction(
        &mut self,
        channel: Channel,
        correction_factor: Binary32,
    ) -> Result<(), Self::Error>;

    /// Calculates `nominal_ohms / actual_ohms` and writes it to `RS1GC` or `RS2GC`.
    /// This directly implements the shunt-calibration calculation shown below Table 72.
    fn write_shunt_gain_correction_from_resistances(
        &mut self,
        channel: Channel,
        nominal_ohms: Binary32,
        actual_ohms: Binary32,
    ) -> Result<(), Self::Error>;

    /// Calculates and writes `RSRATIO = RS1 / RS2` as Float24. This factor is used when
    /// channel 2 contributes to the combined C3 and E4 accumulators.
    fn write_shunt_ratio(&mut self, rs1_ohms: Binary32, rs2_ohms: Binary32) -> Result<(), Self::Error>;

    /// Writes the dimensionless battery-divider gain-correction factor (`BATGC`) as Float24.
    fn write_battery_gain_correction(&mut self, correction_factor: Binary32) -> Result<(), Self::Error>;

    /// Configures one of the four AUX-MUX gain corrections. Writes its Float24 `MUXnGC`
    /// factor and the matching `MUXNSETn`/`MUXPSETn` input codes from Table 57.
    /// Matching is polarity-independent in the LTC2949.
    fn write_mux_gain_correction(
        &mut self,
        slot: MuxGainSlot,
        correction_factor: Binary32,
        negative: MuxInput,
        positive: MuxInput,
    ) -> Result<(), Self::Error>;

    /// Writes the low and high threshold for C1, C2, or C3 (Table 67), converting coulombs
    /// with `shunt_ohms` and the selected accumulator clock. C3 uses the channel-1 shunt.
    fn write_charge_thresholds(
        &mut self,
        accumulator: ChargeAccumulator,
        low_coulombs: Binary64,
        high_coulombs: Binary64,
        shunt_ohms: Binary64,
        clock: AccumulatorClock,
    ) -> Result<(), Self::Error>;

    /// Writes the low and high threshold for E1, E2, or E4 (Table 67), converting joules
    /// with `shunt_ohms` and the selected accumulator clock. E4 uses the channel-1 shunt.
    fn write_energy_thresholds(
        &mut self,
        accumulator: EnergyAccumulator,
        low_joules: Binary64,
        high_joules: Binary64,
        shunt_ohms: Binary64,
        clock: AccumulatorClock,
    ) -> Result<(), Self::Error>;

    /// Writes a TB1-TB4 high threshold in seconds (Table 67).
    fn write_time_threshold(
        &mut self,
        time_base: TimeBase,
        seconds: Binary64,
        clock: AccumulatorClock,
    ) -> Result<(), Self::Error>;

    /// Writes an I1/I2 low/high threshold pair in amperes. `shunt_ohms` converts the
    /// requested current to differential shunt voltage. The 16-bit threshold LSB is 3.8 uV
    /// (four times the 18-bit I1/I2 result LSB).
    fn write_current_thresholds(
        &mut self,
        channel: Channel,
        low_amperes: Binary32,
        high_amperes: Binary32,
        shunt_ohms: Binary32,
    ) -> Result<(), Self::Error>;

    /// Writes a power-mode P1/P2 low/high threshold pair in watts. Use this when the
    /// corresponding `PxASV` bit is clear. The 16-bit threshold LSB is four times the
    /// P1/P2 result-register LSB.
    fn write_power_thresholds(
        &mut self,
        channel: Channel,
        low_watts: Binary32,
        high_watts: Binary32,
        shunt_ohms: Binary32,
    ) -> Result<(), Self::Error>;

    /// Writes a voltage-mode P1/P2 low/high threshold pair in volts. Use this when the
    /// corresponding `PxASV` bit is set. The 16-bit threshold LSB is 187.5 uV.
    fn write_power_as_voltage_thresholds(
        &mut self,
        channel: Channel,
        low_volts: Binary32,
        high_volts: Binary32,
    ) -> Result<(), Self::Error>;

    /// Writes the BAT low/high threshold pair in volts.
    fn write_battery_thresholds(&mut self, low_volts: Binary32, high_volts: Binary32) -> Result<(), Self::Error>;

    /// Writes the die-temperature low/high threshold pair in degrees Celsius.
    fn write_temperature_thresholds(
        &mut self,
        low_celsius: Binary32,
        high_celsius: Binary32,
    ) -> Result<(), Self::Error>;

    /// Writes the A/DVCC low/high threshold pair in volts.
    fn write_vcc_thresholds(&mut self, low_volts: Binary32, high_volts: Binary32) -> Result<(), Self::Error>;

    /// Writes a SLOT1/SLOT2 low/high threshold pair in volts (corresponding `NTCx` clear).
    fn write_slot_voltage_thresholds(
        &mut self,
        slot: Channel,
        low_volts: Binary32,
        high_volts: Binary32,
    ) -> Result<(), Self::Error>;

    /// Writes a SLOT1/SLOT2 low/high threshold pair in degrees Celsius
    /// (corresponding `NTCx` set).
    fn write_slot_temperature_thresholds(
        &mut self,
        slot: Channel,
        low_celsius: Binary32,
        high_celsius: Binary32,
    ) -> Result<(), Self::Error>;

    /// Writes the Fast AUX mux selection (FAMUXP, FAMUXN).
    fn write_fast_aux_mux(&mut self, mux_n: u8, mux_p: u8) -> Result<(), Self::Error>;

    /// Writes the Float24 Steinhart-Hart coefficients and reference resistor for an NTC
    /// channel. Activate via [`write_slot_mux`](Self::write_slot_mux), [`AdcConfiguration::ntc1`] and an ADJUPD pulse.
    fn write_ntc_coefficients(&mut self, channel: Channel, params: &NtcConfig) -> Result<(), Self::Error>;

    /// Writes the sense-resistor temperature-compensation parameters for one channel. Active
    /// only after an `ADJUPD` pulse on `OpCtrl` while the core is in STANDBY.
    fn write_shunt_tc(&mut self, channel: Channel, config: &ShuntTcConfig) -> Result<(), Self::Error>;

    /// Routes `negative`/`positive` to the SLOT's `MUXN`/`MUXP` for differential AUX-ADC
    /// reads (datasheet Tables 57 & 58). NTCs typically use `(Vx, Agnd)`.
    fn write_slot_mux(&mut self, slot: Channel, negative: MuxInput, positive: MuxInput) -> Result<(), Self::Error>;

    /// Writes GPIO Control
    fn write_gpio_ctrl(&mut self, gpio: u8) -> Result<(), Self::Error>;

    /// Writes GPIO5 Control Mode
    fn write_gpio5_config(&mut self, config: u8) -> Result<(), Self::Error>;

    /// Writes GPIO4 Heartbeat
    fn write_gpio4_hb(&mut self, hb: bool) -> Result<(), Self::Error>;

    /// Writes both overcurrent-comparator control registers, `OCC1CTRL` and then `OCC2CTRL`.
    /// `config1` applies to channel 1; `config2` applies to channel 2.
    fn write_occ_config(&mut self, config1: OverCurrentConfig, config2: OverCurrentConfig) -> Result<(), Self::Error>;

    /// Reads and decodes the STATUS register (PAGE0, 0x80; datasheet Table 26).
    fn read_status(&mut self) -> Result<StatusRegister, Self::Error>;

    /// Reads voltage, temperature, and SLOT threshold alerts (STATVT, PAGE0, 0x81;
    /// datasheet Table 35). Set bits indicate that the corresponding high or low threshold
    /// was exceeded; the flags are sticky read/write bits.
    fn read_vt_alerts(&mut self) -> Result<VTAlerts, Self::Error>;

    /// Reads current and power threshold alerts (STATIP, PAGE0, 0x82; datasheet Table 36).
    fn read_ip_alerts(&mut self) -> Result<IPAlerts, Self::Error>;

    /// Reads accumulated-charge threshold alerts (STATC, PAGE0, 0x83; datasheet Table 37).
    fn read_c_alerts(&mut self) -> Result<CAlerts, Self::Error>;

    /// Reads accumulated-energy threshold alerts (STATE, PAGE0, 0x84; datasheet Table 38).
    fn read_e_alerts(&mut self) -> Result<EAlerts, Self::Error>;

    /// Reads charge and energy accumulator overflow alerts (STATCEOF, PAGE0, 0x85;
    /// datasheet Table 39).
    fn read_ceof_alerts(&mut self) -> Result<CEOFAlerts, Self::Error>;

    /// Reads time-base threshold and overflow alerts (STATTB, PAGE0, 0x86;
    /// datasheet Table 40).
    fn read_tb_alerts(&mut self) -> Result<TBAlerts, Self::Error>;

    /// Reads VCC threshold and overcurrent-comparator alerts (STATVCC, PAGE0, 0x87;
    /// datasheet Table 41).
    fn read_vcc_alerts(&mut self) -> Result<VCCAlerts, Self::Error>;

    /// Reads and decodes the FAULTS register (PAGE0, 0xDD; datasheet Table 28).
    fn read_faults(&mut self) -> Result<FaultsRegister, Self::Error>;

    /// Reads and decodes the EXTFAULTS register (PAGE0, 0xDC; datasheet Table 33).
    fn read_extfaults(&mut self) -> Result<ExtFaultsRegister, Self::Error>;

    /// Requests the memory lock (datasheet Figure 19, `MLK = 0b01`) for a cross-register
    /// snapshot; returns the wait ([`T_MLCK_US`]). Stay on one page, then [`unlock_memory`](Self::unlock_memory).
    fn request_memory_lock(&mut self) -> Result<u32, Self::Error>;

    /// Releases the memory lock (`MLK = 0b00`), letting the register map update again.
    fn unlock_memory(&mut self) -> Result<(), Self::Error>;

    /// Reads I1 (slow-mode current 1) as a raw signed 24-bit current-sense voltage result.
    /// LSB = 950 nV.
    fn read_current1(&mut self) -> Result<CurrentSenseVoltage, Self::Error>;

    /// Reads I2 (slow-mode current 2). LSB = 950 nV.
    fn read_current2(&mut self) -> Result<CurrentSenseVoltage, Self::Error>;

    /// Reads I1AVG (moving average of the four preceding current 1 measurements).
    /// LSB = 237.5 nV.
    fn read_current1_avg(&mut self) -> Result<AveragedCurrentSenseVoltage, Self::Error>;

    /// Reads I2AVG (moving average of the four preceding current 2 measurements).
    /// LSB = 237.5 nV.
    fn read_current2_avg(&mut self) -> Result<AveragedCurrentSenseVoltage, Self::Error>;

    /// Reads P1 (power 1 or voltage if P1ASV is set). LSB = 5.8368 uV^2/Ohm (power) or
    /// 46.875 uV (voltage).
    fn read_power1(&mut self) -> Result<PowerOrVoltage, Self::Error>;

    /// Reads P2 (power 2 or voltage if P2ASV is set). LSB = 5.8368 uV^2/Ohm (power) or
    /// 46.875 uV (voltage).
    fn read_power2(&mut self) -> Result<PowerOrVoltage, Self::Error>;

    /// Reads BAT (battery voltage). LSB = 375 uV.
    fn read_bat(&mut self) -> Result<BatteryVoltage, Self::Error>;

    /// Reads internal die temperature. LSB = 0.2 C, full-scale 819.2 K.
    fn read_temp(&mut self) -> Result<DieTemperature, Self::Error>;

    /// Reads A/DVCC supply voltage. LSB = 2.26 mV.
    fn read_vcc(&mut self) -> Result<SupplyVoltage, Self::Error>;

    /// Reads SLOT1 as a [`SlotValue`] - voltage or temperature depending on NTC1 in
    /// ADCCONF.
    fn read_slot1(&mut self) -> Result<SlotValue, Self::Error>;

    /// Reads SLOT2 as a [`SlotValue`] - voltage or temperature depending on NTC2 in
    /// ADCCONF.
    fn read_slot2(&mut self) -> Result<SlotValue, Self::Error>;

    /// Reads Charge1 (48-bit two's-complement) as [`AccumulatedCharge`].
    fn read_charge1(&mut self) -> Result<AccumulatedCharge, Self::Error>;

    /// Reads Charge2 (48-bit two's-complement) as [`AccumulatedCharge`].
    fn read_charge2(&mut self) -> Result<AccumulatedCharge, Self::Error>;

    /// Reads Charge3 - the weighted channel-1/channel-2 sum (64-bit two's-complement).
    fn read_charge3(&mut self) -> Result<AccumulatedCharge, Self::Error>;

    /// Reads Energy1 (48-bit two's-complement) as [`AccumulatedEnergy`].
    fn read_energy1(&mut self) -> Result<AccumulatedEnergy, Self::Error>;

    /// Reads Energy2 (48-bit two's-complement) as [`AccumulatedEnergy`].
    fn read_energy2(&mut self) -> Result<AccumulatedEnergy, Self::Error>;

    /// Reads Energy4 - the weighted channel-1/channel-2 sum (64-bit two's-complement).
    fn read_energy4(&mut self) -> Result<AccumulatedEnergy, Self::Error>;

    /// Reads time-base 1 (32-bit unsigned) as [`AccumulatedTime`].
    fn read_time1(&mut self) -> Result<AccumulatedTime, Self::Error>;

    /// Reads time-base 2 as [`AccumulatedTime`].
    fn read_time2(&mut self) -> Result<AccumulatedTime, Self::Error>;

    /// Reads time-base 3 as [`AccumulatedTime`].
    fn read_time3(&mut self) -> Result<AccumulatedTime, Self::Error>;

    /// Reads time-base 4 as [`AccumulatedTime`].
    fn read_time4(&mut self) -> Result<AccumulatedTime, Self::Error>;

    /// Reads channel 1's charge, energy and time-base ([`Accumulators`]) in one coherent
    /// 16-byte burst - prefer this for SoC integration over separate charge/time reads.
    fn read_accumulators1(&mut self) -> Result<Accumulators, Self::Error>;

    /// Reads channel 2's charge, energy and time-base in a single coherent 16-byte burst
    /// (row `0x10-0x1F`). See [`read_accumulators1`](Self::read_accumulators1).
    fn read_accumulators2(&mut self) -> Result<Accumulators, Self::Error>;

    /// Broadcast ADCV (0x0260): synchronous fast conversion on the LTC2949 and every cell
    /// monitor. **Hazard:** also restarts the chain, so don't call it from a separate meter task.
    fn trigger_adcv_broadcast(&mut self) -> Result<(), Self::Error>;

    /// Broadcasts ADAX (`0x0460`) on the shared bus.
    ///
    /// LTC2949 treats ADAX like every other ADCV-style command: with `CONT = 1` and
    /// `FACONV = 0`, it starts a fast single-shot conversion of the channels enabled in
    /// [`FastControlRegister`]. It does not specifically start a slow SLOT1/SLOT2 conversion.
    ///
    /// The broadcast also starts AUX conversions on attached LTC68xx cell monitors and clears
    /// the LTC2949 FIFOs before conversion. With `FACONV = 1`, LTC2949 ignores the command.
    fn trigger_adax(&mut self) -> Result<(), Self::Error>;
}

/// LTC2949 client for the parallel-to-daisy-chain topology (datasheet Figure 12(B)),
/// reached directly via `DCMD`. High-level ops are on the [`Client`] trait.
pub struct LTC2949<E, P> {
    link: Link<E, P>,
}

impl<E, P: PollMethod<E>> View for LTC2949<E, P> {
    type V = LinkView<E>;

    closed spec fn view(&self) -> LinkView<E> {
        self.link@
    }
}

impl<E> LTC2949<E, NoPolling> {
    /// Constructs an LTC2949 client, addressed directly via `DCMD` (alone on the bus or in
    /// parallel with a cell-monitor chain).
    pub fn new(bus: SpiTranscript<E>) -> (client: Self)
        ensures
            client@ == (LinkView { page: None, end: Seq::empty(), bus: bus@ }),
    {
        LTC2949 { link: Link::new(bus, NoPolling {  }) }
    }
}

impl<E, P: PollMethod<E>> Client for LTC2949<E, P> {
    type Error = Error<E>;

    fn start_wake_up(&mut self) -> (result: Result<u32, Error<E>>)
        ensures
            final(self)@ == old(self)@.start_wake_up().1,
            result == in_time(old(self)@.start_wake_up().0, T_BOOT_US),
    {
        match self.link.start_wake_up() {
            Err(error) => Err(error),
            Ok(_) => Ok(T_BOOT_US),
        }
    }

    fn confirm_wake_up(&mut self) -> (result: Result<(), Error<E>>)
        ensures
            (result, final(self)@) == old(self)@.confirm_wake_up(),
    {
        self.link.write_register(Page::Page0, RegAddressP0::WkupAck.addr(), &crate::bytes::single(0x00))
    }

    fn wake_isospi(&mut self) -> (result: Result<u32, Error<E>>)
        ensures
            final(self)@ == old(self)@.wake_port().1,
            result == in_time(old(self)@.wake_port().0, T_READY_US),
    {
        match self.link.wake_port() {
            Err(error) => Err(error),
            Ok(_) => Ok(T_READY_US),
        }
    }

    fn write_opctrl(&mut self, value: OpsControlRegister) -> (result: Result<(), Error<E>>)
        ensures
            (result, final(self)@) == old(self)@.write_opctrl(value@),
    {
        self.link.write_register(Page::Page0, RegAddressP0::OpCtrl.addr(), &value.into_bytes())
    }

    fn read_opctrl(&mut self) -> (result: Result<OpsControlRegister, Error<E>>)
        ensures
            final(self)@ == old(self)@.read_byte(RegAddressP0::OpCtrl.addr()).1,
            crate::link::yields(result, old(self)@.read_byte(RegAddressP0::OpCtrl.addr()).0),
    {
        match self.link.read_byte(RegAddressP0::OpCtrl.addr()) {
            Err(error) => Err(error),
            Ok(byte) => Ok(OpsControlRegister::from_bytes([byte])),
        }
    }

    fn write_factrl(&mut self, value: FastControlRegister) -> (result: Result<(), Error<E>>)
        ensures
            (result, final(self)@) == old(self)@.write_factrl(value@),
    {
        self.link.write_register(Page::Page0, RegAddressP0::FaCtrl.addr(), &value.into_bytes())
    }

    fn write_adcconf(&mut self, value: AdcConfiguration) -> (result: Result<(), Error<E>>)
        ensures
            (result, final(self)@) == old(self)@.write_adcconf(value@),
    {
        self.link.write_register(Page::Page1, RegAddressP1::AdcConf.addr(), &value.into_bytes())
    }

    fn write_shunt_gain_correction(
        &mut self,
        channel: Channel,
        correction_factor: Binary32,
    ) -> (result: Result<(), Error<E>>)
        ensures
            (result, final(self)@) == old(self)@.write_shunt_gain(channel, correction_factor),
    {
        let address = match channel {
            Channel::One => RegAddressP1::Rs1Gc,
            Channel::Two => RegAddressP1::Rs2Gc,
        };
        self.write_gain_factor(address, correction_factor)
    }

    fn write_shunt_gain_correction_from_resistances(
        &mut self,
        channel: Channel,
        nominal_ohms: Binary32,
        actual_ohms: Binary32,
    ) -> (result: Result<(), Error<E>>)
        ensures
            (result, final(self)@) == old(self)@.write_shunt_gain_from(channel, nominal_ohms, actual_ohms),
    {
        match crate::thresholds::positive_ratio(nominal_ohms, actual_ohms) {
            None => Err(Error::InvalidGainCorrection),
            Some(correction_factor) => self.write_shunt_gain_correction(channel, correction_factor),
        }
    }

    fn write_shunt_ratio(&mut self, rs1_ohms: Binary32, rs2_ohms: Binary32) -> (result: Result<(), Error<E>>)
        ensures
            (result, final(self)@) == old(self)@.write_shunt_ratio(rs1_ohms, rs2_ohms),
    {
        match crate::thresholds::positive_ratio(rs1_ohms, rs2_ohms) {
            None => Err(Error::InvalidGainCorrection),
            Some(ratio) => self.write_gain_factor(RegAddressP1::RsRatio, ratio),
        }
    }

    fn write_battery_gain_correction(&mut self, correction_factor: Binary32) -> (result: Result<(), Error<E>>)
        ensures
            (result, final(self)@) == old(self)@.write_battery_gain(correction_factor),
    {
        self.write_gain_factor(RegAddressP1::BatGc, correction_factor)
    }

    fn write_mux_gain_correction(
        &mut self,
        slot: MuxGainSlot,
        correction_factor: Binary32,
        negative: MuxInput,
        positive: MuxInput,
    ) -> (result: Result<(), Error<E>>)
        ensures
            (result, final(self)@) == old(self)@.write_mux_gain(slot, correction_factor, negative, positive),
    {
        let (gain_address, mux_set_address) = match slot {
            MuxGainSlot::One => (RegAddressP1::Mux1Gc, RegAddressP1::MuxNset1),
            MuxGainSlot::Two => (RegAddressP1::Mux2Gc, RegAddressP1::MuxNset2),
            MuxGainSlot::Three => (RegAddressP1::Mux3Gc, RegAddressP1::MuxNset3),
            MuxGainSlot::Four => (RegAddressP1::Mux4Gc, RegAddressP1::MuxNset4),
        };
        match encode_gain_factor(correction_factor) {
            None => Err(Error::InvalidGainCorrection),
            Some(encoded) => {
                let inputs = crate::bytes::double(negative.code(), positive.code());
                self.link.write_two_registers(
                    Page::Page1,
                    gain_address.addr(),
                    &encoded,
                    mux_set_address.addr(),
                    &inputs,
                )
            },
        }
    }

    fn write_charge_thresholds(
        &mut self,
        accumulator: ChargeAccumulator,
        low_coulombs: Binary64,
        high_coulombs: Binary64,
        shunt_ohms: Binary64,
        clock: AccumulatorClock,
    ) -> (result: Result<(), Error<E>>)
        ensures
            (result, final(self)@) == old(self)@.write_charge_thresholds(
                accumulator,
                low_coulombs,
                high_coulombs,
                shunt_ohms,
                clock,
            ),
    {
        let lsbs = match crate::thresholds::accumulator_lsbs(clock) {
            None => {
                return Err(Error::InvalidThreshold);
            },
            Some(lsbs) => lsbs,
        };
        let lsb = match crate::thresholds::divide_lsb_by_shunt(lsbs.charge, shunt_ohms) {
            None => {
                return Err(Error::InvalidThreshold);
            },
            Some(lsb) => lsb,
        };
        match accumulator {
            ChargeAccumulator::Charge1 => self.write_signed_48_threshold_pair(
                RegAddressP1::C1Th,
                low_coulombs,
                high_coulombs,
                lsb,
            ),
            ChargeAccumulator::Charge2 => self.write_signed_48_threshold_pair(
                RegAddressP1::C2Th,
                low_coulombs,
                high_coulombs,
                lsb,
            ),
            ChargeAccumulator::Charge3 => self.write_signed_64_threshold_pair(
                RegAddressP1::C3Th,
                RegAddressP1::C3Tl,
                low_coulombs,
                high_coulombs,
                lsb,
            ),
        }
    }

    fn write_energy_thresholds(
        &mut self,
        accumulator: EnergyAccumulator,
        low_joules: Binary64,
        high_joules: Binary64,
        shunt_ohms: Binary64,
        clock: AccumulatorClock,
    ) -> (result: Result<(), Error<E>>)
        ensures
            (result, final(self)@) == old(self)@.write_energy_thresholds(
                accumulator,
                low_joules,
                high_joules,
                shunt_ohms,
                clock,
            ),
    {
        let lsbs = match crate::thresholds::accumulator_lsbs(clock) {
            None => {
                return Err(Error::InvalidThreshold);
            },
            Some(lsbs) => lsbs,
        };
        let lsb = match crate::thresholds::divide_lsb_by_shunt(lsbs.energy, shunt_ohms) {
            None => {
                return Err(Error::InvalidThreshold);
            },
            Some(lsb) => lsb,
        };
        match accumulator {
            EnergyAccumulator::Energy1 => self.write_signed_48_threshold_pair(
                RegAddressP1::E1Th,
                low_joules,
                high_joules,
                lsb,
            ),
            EnergyAccumulator::Energy2 => self.write_signed_48_threshold_pair(
                RegAddressP1::E2Th,
                low_joules,
                high_joules,
                lsb,
            ),
            EnergyAccumulator::Energy4 => self.write_signed_64_threshold_pair(
                RegAddressP1::E4Th,
                RegAddressP1::E4Tl,
                low_joules,
                high_joules,
                lsb,
            ),
        }
    }

    fn write_time_threshold(
        &mut self,
        time_base: TimeBase,
        seconds: Binary64,
        clock: AccumulatorClock,
    ) -> (result: Result<(), Error<E>>)
        ensures
            (result, final(self)@) == old(self)@.write_time_threshold(time_base, seconds, clock),
    {
        let lsbs = match crate::thresholds::accumulator_lsbs(clock) {
            None => {
                return Err(Error::InvalidThreshold);
            },
            Some(lsbs) => lsbs,
        };
        let raw = match crate::thresholds::quantize_unsigned_32(seconds, lsbs.time) {
            None => {
                return Err(Error::InvalidThreshold);
            },
            Some(raw) => raw,
        };
        let address = match time_base {
            TimeBase::Time1 => RegAddressP1::Tb1Th,
            TimeBase::Time2 => RegAddressP1::Tb2Th,
            TimeBase::Time3 => RegAddressP1::Tb3Th,
            TimeBase::Time4 => RegAddressP1::Tb4Th,
        };
        let bytes = crate::bytes::unsigned_to_be(raw as u64, 4);
        self.link.write_register(Page::Page1, address.addr(), bytes.as_slice())
    }

    fn write_current_thresholds(
        &mut self,
        channel: Channel,
        low_amperes: Binary32,
        high_amperes: Binary32,
        shunt_ohms: Binary32,
    ) -> (result: Result<(), Error<E>>)
        ensures
            (result, final(self)@) == old(self)@.write_current_thresholds(channel, low_amperes, high_amperes, shunt_ohms),
    {
        let lsb = match crate::thresholds::divide_lsb_by_shunt(
            Binary32::from_bits(CurrentSenseVoltage::THRESHOLD_LSB_VOLTS).widen(),
            shunt_ohms.widen(),
        ) {
            None => {
                return Err(Error::InvalidThreshold);
            },
            Some(lsb) => lsb,
        };
        let address = match channel {
            Channel::One => RegAddressP1::I1Th,
            Channel::Two => RegAddressP1::I2Th,
        };
        self.write_signed_16_threshold_pair(address, low_amperes.widen(), high_amperes.widen(), lsb)
    }

    fn write_power_thresholds(
        &mut self,
        channel: Channel,
        low_watts: Binary32,
        high_watts: Binary32,
        shunt_ohms: Binary32,
    ) -> (result: Result<(), Error<E>>)
        ensures
            (result, final(self)@) == old(self)@.write_power_thresholds(channel, low_watts, high_watts, shunt_ohms),
    {
        let lsb = match crate::thresholds::divide_lsb_by_shunt(
            Binary32::from_bits(PowerOrVoltage::POWER_THRESHOLD_LSB_VOLT_SQUARED).widen(),
            shunt_ohms.widen(),
        ) {
            None => {
                return Err(Error::InvalidThreshold);
            },
            Some(lsb) => lsb,
        };
        let address = match channel {
            Channel::One => RegAddressP1::P1Th,
            Channel::Two => RegAddressP1::P2Th,
        };
        self.write_signed_16_threshold_pair(address, low_watts.widen(), high_watts.widen(), lsb)
    }

    fn write_power_as_voltage_thresholds(
        &mut self,
        channel: Channel,
        low_volts: Binary32,
        high_volts: Binary32,
    ) -> (result: Result<(), Error<E>>)
        ensures
            (result, final(self)@) == old(self)@.write_power_as_voltage_thresholds(channel, low_volts, high_volts),
    {
        let lsb = Binary32::from_bits(PowerOrVoltage::VOLTAGE_THRESHOLD_LSB_VOLTS).widen();
        let address = match channel {
            Channel::One => RegAddressP1::P1Th,
            Channel::Two => RegAddressP1::P2Th,
        };
        self.write_signed_16_threshold_pair(address, low_volts.widen(), high_volts.widen(), lsb)
    }

    fn write_battery_thresholds(
        &mut self,
        low_volts: Binary32,
        high_volts: Binary32,
    ) -> (result: Result<(), Error<E>>)
        ensures
            (result, final(self)@) == old(self)@.write_battery_thresholds(low_volts, high_volts),
    {
        let lsb = Binary32::from_bits(BatteryVoltage::LSB_VOLTS).widen();
        self.write_signed_16_threshold_pair(RegAddressP1::BatTh, low_volts.widen(), high_volts.widen(), lsb)
    }

    fn write_temperature_thresholds(
        &mut self,
        low_celsius: Binary32,
        high_celsius: Binary32,
    ) -> (result: Result<(), Error<E>>)
        ensures
            (result, final(self)@) == old(self)@.write_temperature_thresholds(low_celsius, high_celsius),
    {
        let lsb = Binary32::from_bits(DieTemperature::LSB_KELVIN).widen();
        let zero_celsius = Binary32::from_bits(DieTemperature::ZERO_CELSIUS_KELVIN);
        let low = low_celsius.plus(zero_celsius).widen();
        let high = high_celsius.plus(zero_celsius).widen();
        self.write_signed_16_threshold_pair(RegAddressP1::TempTh, low, high, lsb)
    }

    fn write_vcc_thresholds(&mut self, low_volts: Binary32, high_volts: Binary32) -> (result: Result<(), Error<E>>)
        ensures
            (result, final(self)@) == old(self)@.write_vcc_thresholds(low_volts, high_volts),
    {
        let lsb = Binary32::from_bits(SupplyVoltage::LSB_VOLTS).widen();
        self.write_signed_16_threshold_pair(RegAddressP1::VccTh, low_volts.widen(), high_volts.widen(), lsb)
    }

    fn write_slot_voltage_thresholds(
        &mut self,
        slot: Channel,
        low_volts: Binary32,
        high_volts: Binary32,
    ) -> (result: Result<(), Error<E>>)
        ensures
            (result, final(self)@) == old(self)@.write_slot_voltage_thresholds(slot, low_volts, high_volts),
    {
        let lsb = Binary32::from_bits(SlotValue::LSB_VOLTS).widen();
        let address = match slot {
            Channel::One => RegAddressP1::Slot1Th,
            Channel::Two => RegAddressP1::Slot2Th,
        };
        self.write_signed_16_threshold_pair(address, low_volts.widen(), high_volts.widen(), lsb)
    }

    fn write_slot_temperature_thresholds(
        &mut self,
        slot: Channel,
        low_celsius: Binary32,
        high_celsius: Binary32,
    ) -> (result: Result<(), Error<E>>)
        ensures
            (result, final(self)@) == old(self)@.write_slot_temperature_thresholds(slot, low_celsius, high_celsius),
    {
        let lsb = Binary32::from_bits(SlotValue::LSB_DEGREES_CELSIUS).widen();
        let address = match slot {
            Channel::One => RegAddressP1::Slot1Th,
            Channel::Two => RegAddressP1::Slot2Th,
        };
        self.write_signed_16_threshold_pair(address, low_celsius.widen(), high_celsius.widen(), lsb)
    }

    fn write_fast_aux_mux(&mut self, mux_n: u8, mux_p: u8) -> (result: Result<(), Error<E>>)
        ensures
            (result, final(self)@) == old(self)@.write_fast_aux_mux(mux_n, mux_p),
    {
        let inputs = crate::bytes::double(mux_n, mux_p);
        self.link.write_register(Page::Page0, RegAddressP0::FaMuxN.addr(), &inputs)
    }

    fn write_ntc_coefficients(&mut self, channel: Channel, params: &NtcConfig) -> (result: Result<(), Error<E>>)
        ensures
            (result, final(self)@) == old(self)@.write_ntc_coefficients(channel, *params),
    {
        self.link.write_ntc_coefficients(channel, params)
    }

    fn write_shunt_tc(&mut self, channel: Channel, config: &ShuntTcConfig) -> (result: Result<(), Error<E>>)
        ensures
            (result, final(self)@) == old(self)@.write_shunt_tc(channel, *config),
    {
        self.link.write_shunt_tc(channel, config)
    }

    fn write_slot_mux(
        &mut self,
        slot: Channel,
        negative: MuxInput,
        positive: MuxInput,
    ) -> (result: Result<(), Error<E>>)
        ensures
            (result, final(self)@) == old(self)@.write_slot_mux(slot, negative, positive),
    {
        self.link.write_slot_mux(slot, negative, positive)
    }

    fn write_gpio_ctrl(&mut self, gpio: u8) -> (result: Result<(), Error<E>>)
        ensures
            (result, final(self)@) == old(self)@.write_gpio_ctrl(gpio),
    {
        self.link.write_register(Page::Page0, RegAddressP0::FGpioCtrl.addr(), &crate::bytes::single(gpio))
    }

    fn write_gpio5_config(&mut self, config: u8) -> (result: Result<(), Error<E>>)
        ensures
            (result, final(self)@) == old(self)@.write_gpio5_config(config),
    {
        self.link.write_register(Page::Page0, RegAddressP0::FCurGpioCtrl.addr(), &crate::bytes::single(config))
    }

    fn write_gpio4_hb(&mut self, hb: bool) -> (result: Result<(), Error<E>>)
        ensures
            (result, final(self)@) == old(self)@.write_gpio4_hb(hb),
    {
        let level: u8 = if hb { 1 } else { 0 };
        self.link.write_register(Page::Page0, RegAddressP0::FCurGpioCtrl.addr(), &crate::bytes::single(level))
    }

    fn write_occ_config(
        &mut self,
        config1: OverCurrentConfig,
        config2: OverCurrentConfig,
    ) -> (result: Result<(), Error<E>>)
        ensures
            (result, final(self)@) == old(self)@.write_occ_config(config1, config2),
    {
        self.link.write_two_registers(
            Page::Page0,
            RegAddressP0::Occ1Ctrl.addr(),
            &crate::bytes::single(config1.byte()),
            RegAddressP0::Occ2Ctrl.addr(),
            &crate::bytes::single(config2.byte()),
        )
    }

    fn read_status(&mut self) -> (result: Result<StatusRegister, Error<E>>)
        ensures
            final(self)@ == old(self)@.read_byte(RegAddressP0::Status.addr()).1,
            crate::link::yields(result, old(self)@.read_byte(RegAddressP0::Status.addr()).0),
    {
        match self.link.read_byte(RegAddressP0::Status.addr()) {
            Err(error) => Err(error),
            Ok(byte) => Ok(StatusRegister::from_bytes([byte])),
        }
    }

    fn read_vt_alerts(&mut self) -> (result: Result<VTAlerts, Error<E>>)
        ensures
            final(self)@ == old(self)@.read_byte(RegAddressP0::StatVT.addr()).1,
            crate::link::yields(result, old(self)@.read_byte(RegAddressP0::StatVT.addr()).0),
    {
        match self.link.read_byte(RegAddressP0::StatVT.addr()) {
            Err(error) => Err(error),
            Ok(byte) => Ok(VTAlerts::from_bytes([byte])),
        }
    }

    fn read_ip_alerts(&mut self) -> (result: Result<IPAlerts, Error<E>>)
        ensures
            final(self)@ == old(self)@.read_byte(RegAddressP0::StatIP.addr()).1,
            crate::link::yields(result, old(self)@.read_byte(RegAddressP0::StatIP.addr()).0),
    {
        match self.link.read_byte(RegAddressP0::StatIP.addr()) {
            Err(error) => Err(error),
            Ok(byte) => Ok(IPAlerts::from_bytes([byte])),
        }
    }

    fn read_c_alerts(&mut self) -> (result: Result<CAlerts, Error<E>>)
        ensures
            final(self)@ == old(self)@.read_byte(RegAddressP0::StatC.addr()).1,
            crate::link::yields(result, old(self)@.read_byte(RegAddressP0::StatC.addr()).0),
    {
        match self.link.read_byte(RegAddressP0::StatC.addr()) {
            Err(error) => Err(error),
            Ok(byte) => Ok(CAlerts::from_bytes([byte])),
        }
    }

    fn read_e_alerts(&mut self) -> (result: Result<EAlerts, Error<E>>)
        ensures
            final(self)@ == old(self)@.read_byte(RegAddressP0::StatE.addr()).1,
            crate::link::yields(result, old(self)@.read_byte(RegAddressP0::StatE.addr()).0),
    {
        match self.link.read_byte(RegAddressP0::StatE.addr()) {
            Err(error) => Err(error),
            Ok(byte) => Ok(EAlerts::from_bytes([byte])),
        }
    }

    fn read_ceof_alerts(&mut self) -> (result: Result<CEOFAlerts, Error<E>>)
        ensures
            final(self)@ == old(self)@.read_byte(RegAddressP0::StatCEOF.addr()).1,
            crate::link::yields(result, old(self)@.read_byte(RegAddressP0::StatCEOF.addr()).0),
    {
        match self.link.read_byte(RegAddressP0::StatCEOF.addr()) {
            Err(error) => Err(error),
            Ok(byte) => Ok(CEOFAlerts::from_bytes([byte])),
        }
    }

    fn read_tb_alerts(&mut self) -> (result: Result<TBAlerts, Error<E>>)
        ensures
            final(self)@ == old(self)@.read_byte(RegAddressP0::StatTB.addr()).1,
            crate::link::yields(result, old(self)@.read_byte(RegAddressP0::StatTB.addr()).0),
    {
        match self.link.read_byte(RegAddressP0::StatTB.addr()) {
            Err(error) => Err(error),
            Ok(byte) => Ok(TBAlerts::from_bytes([byte])),
        }
    }

    fn read_vcc_alerts(&mut self) -> (result: Result<VCCAlerts, Error<E>>)
        ensures
            final(self)@ == old(self)@.read_byte(RegAddressP0::StatVCC.addr()).1,
            crate::link::yields(result, old(self)@.read_byte(RegAddressP0::StatVCC.addr()).0),
    {
        match self.link.read_byte(RegAddressP0::StatVCC.addr()) {
            Err(error) => Err(error),
            Ok(byte) => Ok(VCCAlerts::from_bytes([byte])),
        }
    }

    fn read_faults(&mut self) -> (result: Result<FaultsRegister, Error<E>>)
        ensures
            final(self)@ == old(self)@.read_byte(RegAddressP0::Faults.addr()).1,
            crate::link::yields(result, old(self)@.read_byte(RegAddressP0::Faults.addr()).0),
    {
        match self.link.read_byte(RegAddressP0::Faults.addr()) {
            Err(error) => Err(error),
            Ok(byte) => Ok(FaultsRegister::from_bytes([byte])),
        }
    }

    fn read_extfaults(&mut self) -> (result: Result<ExtFaultsRegister, Error<E>>)
        ensures
            final(self)@ == old(self)@.read_byte(RegAddressP0::ExtFaults.addr()).1,
            crate::link::yields(result, old(self)@.read_byte(RegAddressP0::ExtFaults.addr()).0),
    {
        match self.link.read_byte(RegAddressP0::ExtFaults.addr()) {
            Err(error) => Err(error),
            Ok(byte) => Ok(ExtFaultsRegister::from_bytes([byte])),
        }
    }

    fn request_memory_lock(&mut self) -> (result: Result<u32, Error<E>>)
        ensures
            final(self)@ == old(self)@.request_memory_lock().1,
            result == in_time(old(self)@.request_memory_lock().0, T_MLCK_US),
    {
        match self.link.request_memory_lock() {
            Err(error) => Err(error),
            Ok(_) => Ok(T_MLCK_US),
        }
    }

    fn unlock_memory(&mut self) -> (result: Result<(), Error<E>>)
        ensures
            (result, final(self)@) == old(self)@.unlock_memory(),
    {
        self.link.unlock_memory()
    }

    fn read_current1(&mut self) -> (result: Result<CurrentSenseVoltage, Error<E>>)
        ensures
            final(self)@ == old(self)@.read_signed(RegAddressP0::Current1.addr(), 3).1,
            crate::link::yields(result, old(self)@.read_signed(RegAddressP0::Current1.addr(), 3).0),
    {
        match self.link.read_signed_24(RegAddressP0::Current1.addr()) {
            Err(error) => Err(error),
            Ok(raw) => Ok(CurrentSenseVoltage::from_raw(raw)),
        }
    }

    fn read_current2(&mut self) -> (result: Result<CurrentSenseVoltage, Error<E>>)
        ensures
            final(self)@ == old(self)@.read_signed(RegAddressP0::Current2.addr(), 3).1,
            crate::link::yields(result, old(self)@.read_signed(RegAddressP0::Current2.addr(), 3).0),
    {
        match self.link.read_signed_24(RegAddressP0::Current2.addr()) {
            Err(error) => Err(error),
            Ok(raw) => Ok(CurrentSenseVoltage::from_raw(raw)),
        }
    }

    fn read_current1_avg(&mut self) -> (result: Result<AveragedCurrentSenseVoltage, Error<E>>)
        ensures
            final(self)@ == old(self)@.read_signed(RegAddressP0::Current1Avg.addr(), 3).1,
            crate::link::yields(result, old(self)@.read_signed(RegAddressP0::Current1Avg.addr(), 3).0),
    {
        match self.link.read_signed_24(RegAddressP0::Current1Avg.addr()) {
            Err(error) => Err(error),
            Ok(raw) => Ok(AveragedCurrentSenseVoltage::from_raw(raw)),
        }
    }

    fn read_current2_avg(&mut self) -> (result: Result<AveragedCurrentSenseVoltage, Error<E>>)
        ensures
            final(self)@ == old(self)@.read_signed(RegAddressP0::Current2Avg.addr(), 3).1,
            crate::link::yields(result, old(self)@.read_signed(RegAddressP0::Current2Avg.addr(), 3).0),
    {
        match self.link.read_signed_24(RegAddressP0::Current2Avg.addr()) {
            Err(error) => Err(error),
            Ok(raw) => Ok(AveragedCurrentSenseVoltage::from_raw(raw)),
        }
    }

    fn read_power1(&mut self) -> (result: Result<PowerOrVoltage, Error<E>>)
        ensures
            final(self)@ == old(self)@.read_signed(RegAddressP0::Power1.addr(), 3).1,
            crate::link::yields(result, old(self)@.read_signed(RegAddressP0::Power1.addr(), 3).0),
    {
        match self.link.read_signed_24(RegAddressP0::Power1.addr()) {
            Err(error) => Err(error),
            Ok(raw) => Ok(PowerOrVoltage::from_raw(raw)),
        }
    }

    fn read_power2(&mut self) -> (result: Result<PowerOrVoltage, Error<E>>)
        ensures
            final(self)@ == old(self)@.read_signed(RegAddressP0::Power2.addr(), 3).1,
            crate::link::yields(result, old(self)@.read_signed(RegAddressP0::Power2.addr(), 3).0),
    {
        match self.link.read_signed_24(RegAddressP0::Power2.addr()) {
            Err(error) => Err(error),
            Ok(raw) => Ok(PowerOrVoltage::from_raw(raw)),
        }
    }

    fn read_bat(&mut self) -> (result: Result<BatteryVoltage, Error<E>>)
        ensures
            final(self)@ == old(self)@.read_signed(RegAddressP0::Bat.addr(), 2).1,
            crate::link::yields(result, old(self)@.read_signed(RegAddressP0::Bat.addr(), 2).0),
    {
        match self.link.read_signed_16(RegAddressP0::Bat.addr()) {
            Err(error) => Err(error),
            Ok(raw) => Ok(BatteryVoltage::from_raw(raw)),
        }
    }

    fn read_temp(&mut self) -> (result: Result<DieTemperature, Error<E>>)
        ensures
            final(self)@ == old(self)@.read_signed(RegAddressP0::Temp.addr(), 2).1,
            crate::link::yields(result, old(self)@.read_signed(RegAddressP0::Temp.addr(), 2).0),
    {
        match self.link.read_signed_16(RegAddressP0::Temp.addr()) {
            Err(error) => Err(error),
            Ok(raw) => Ok(DieTemperature::from_raw(raw)),
        }
    }

    fn read_vcc(&mut self) -> (result: Result<SupplyVoltage, Error<E>>)
        ensures
            final(self)@ == old(self)@.read_signed(RegAddressP0::Vcc.addr(), 2).1,
            crate::link::yields(result, old(self)@.read_signed(RegAddressP0::Vcc.addr(), 2).0),
    {
        match self.link.read_signed_16(RegAddressP0::Vcc.addr()) {
            Err(error) => Err(error),
            Ok(raw) => Ok(SupplyVoltage::from_raw(raw)),
        }
    }

    fn read_slot1(&mut self) -> (result: Result<SlotValue, Error<E>>)
        ensures
            final(self)@ == old(self)@.read_signed(RegAddressP0::Slot1.addr(), 2).1,
            crate::link::yields(result, old(self)@.read_signed(RegAddressP0::Slot1.addr(), 2).0),
    {
        match self.link.read_signed_16(RegAddressP0::Slot1.addr()) {
            Err(error) => Err(error),
            Ok(raw) => Ok(SlotValue::from_raw(raw)),
        }
    }

    fn read_slot2(&mut self) -> (result: Result<SlotValue, Error<E>>)
        ensures
            final(self)@ == old(self)@.read_signed(RegAddressP0::Slot2.addr(), 2).1,
            crate::link::yields(result, old(self)@.read_signed(RegAddressP0::Slot2.addr(), 2).0),
    {
        match self.link.read_signed_16(RegAddressP0::Slot2.addr()) {
            Err(error) => Err(error),
            Ok(raw) => Ok(SlotValue::from_raw(raw)),
        }
    }

    fn read_charge1(&mut self) -> (result: Result<AccumulatedCharge, Error<E>>)
        ensures
            final(self)@ == old(self)@.read_signed(RegAddressP0::Charge1.addr(), 6).1,
            crate::link::yields(result, old(self)@.read_signed(RegAddressP0::Charge1.addr(), 6).0),
    {
        match self.link.read_signed_48(RegAddressP0::Charge1.addr()) {
            Err(error) => Err(error),
            Ok(raw) => Ok(AccumulatedCharge::from_raw(raw)),
        }
    }

    fn read_charge2(&mut self) -> (result: Result<AccumulatedCharge, Error<E>>)
        ensures
            final(self)@ == old(self)@.read_signed(RegAddressP0::Charge2.addr(), 6).1,
            crate::link::yields(result, old(self)@.read_signed(RegAddressP0::Charge2.addr(), 6).0),
    {
        match self.link.read_signed_48(RegAddressP0::Charge2.addr()) {
            Err(error) => Err(error),
            Ok(raw) => Ok(AccumulatedCharge::from_raw(raw)),
        }
    }

    fn read_charge3(&mut self) -> (result: Result<AccumulatedCharge, Error<E>>)
        ensures
            final(self)@ == old(self)@.read_signed(RegAddressP0::Charge3.addr(), 8).1,
            crate::link::yields(result, old(self)@.read_signed(RegAddressP0::Charge3.addr(), 8).0),
    {
        match self.link.read_signed_64(RegAddressP0::Charge3.addr()) {
            Err(error) => Err(error),
            Ok(raw) => Ok(AccumulatedCharge::from_raw(raw)),
        }
    }

    fn read_energy1(&mut self) -> (result: Result<AccumulatedEnergy, Error<E>>)
        ensures
            final(self)@ == old(self)@.read_signed(RegAddressP0::Energy1.addr(), 6).1,
            crate::link::yields(result, old(self)@.read_signed(RegAddressP0::Energy1.addr(), 6).0),
    {
        match self.link.read_signed_48(RegAddressP0::Energy1.addr()) {
            Err(error) => Err(error),
            Ok(raw) => Ok(AccumulatedEnergy::from_raw(raw)),
        }
    }

    fn read_energy2(&mut self) -> (result: Result<AccumulatedEnergy, Error<E>>)
        ensures
            final(self)@ == old(self)@.read_signed(RegAddressP0::Energy2.addr(), 6).1,
            crate::link::yields(result, old(self)@.read_signed(RegAddressP0::Energy2.addr(), 6).0),
    {
        match self.link.read_signed_48(RegAddressP0::Energy2.addr()) {
            Err(error) => Err(error),
            Ok(raw) => Ok(AccumulatedEnergy::from_raw(raw)),
        }
    }

    fn read_energy4(&mut self) -> (result: Result<AccumulatedEnergy, Error<E>>)
        ensures
            final(self)@ == old(self)@.read_signed(RegAddressP0::Energy4.addr(), 8).1,
            crate::link::yields(result, old(self)@.read_signed(RegAddressP0::Energy4.addr(), 8).0),
    {
        match self.link.read_signed_64(RegAddressP0::Energy4.addr()) {
            Err(error) => Err(error),
            Ok(raw) => Ok(AccumulatedEnergy::from_raw(raw)),
        }
    }

    fn read_time1(&mut self) -> (result: Result<AccumulatedTime, Error<E>>)
        ensures
            final(self)@ == old(self)@.read_unsigned(RegAddressP0::Time1.addr(), 4).1,
            crate::link::yields(result, old(self)@.read_unsigned(RegAddressP0::Time1.addr(), 4).0),
    {
        match self.link.read_unsigned_32(RegAddressP0::Time1.addr()) {
            Err(error) => Err(error),
            Ok(raw) => Ok(AccumulatedTime::from_raw(raw)),
        }
    }

    fn read_time2(&mut self) -> (result: Result<AccumulatedTime, Error<E>>)
        ensures
            final(self)@ == old(self)@.read_unsigned(RegAddressP0::Time2.addr(), 4).1,
            crate::link::yields(result, old(self)@.read_unsigned(RegAddressP0::Time2.addr(), 4).0),
    {
        match self.link.read_unsigned_32(RegAddressP0::Time2.addr()) {
            Err(error) => Err(error),
            Ok(raw) => Ok(AccumulatedTime::from_raw(raw)),
        }
    }

    fn read_time3(&mut self) -> (result: Result<AccumulatedTime, Error<E>>)
        ensures
            final(self)@ == old(self)@.read_unsigned(RegAddressP0::Time3.addr(), 4).1,
            crate::link::yields(result, old(self)@.read_unsigned(RegAddressP0::Time3.addr(), 4).0),
    {
        match self.link.read_unsigned_32(RegAddressP0::Time3.addr()) {
            Err(error) => Err(error),
            Ok(raw) => Ok(AccumulatedTime::from_raw(raw)),
        }
    }

    fn read_time4(&mut self) -> (result: Result<AccumulatedTime, Error<E>>)
        ensures
            final(self)@ == old(self)@.read_unsigned(RegAddressP0::Time4.addr(), 4).1,
            crate::link::yields(result, old(self)@.read_unsigned(RegAddressP0::Time4.addr(), 4).0),
    {
        match self.link.read_unsigned_32(RegAddressP0::Time4.addr()) {
            Err(error) => Err(error),
            Ok(raw) => Ok(AccumulatedTime::from_raw(raw)),
        }
    }

    fn read_accumulators1(&mut self) -> (result: Result<Accumulators, Error<E>>)
        ensures
            final(self)@ == old(self)@.read_accumulators(RegAddressP0::Charge1.addr()).1,
            crate::link::yields(result, old(self)@.read_accumulators(RegAddressP0::Charge1.addr()).0),
    {
        self.link.read_accumulator_row(RegAddressP0::Charge1.addr())
    }

    fn read_accumulators2(&mut self) -> (result: Result<Accumulators, Error<E>>)
        ensures
            final(self)@ == old(self)@.read_accumulators(RegAddressP0::Charge2.addr()).1,
            crate::link::yields(result, old(self)@.read_accumulators(RegAddressP0::Charge2.addr()).0),
    {
        self.link.read_accumulator_row(RegAddressP0::Charge2.addr())
    }

    fn trigger_adcv_broadcast(&mut self) -> (result: Result<(), Error<E>>)
        ensures
            (result, final(self)@) == old(self)@.send_cmd16(0x0260),
    {
        self.link.send_cmd16(0x0260)
    }

    fn trigger_adax(&mut self) -> (result: Result<(), Error<E>>)
        ensures
            (result, final(self)@) == old(self)@.send_cmd16(0x0460),
    {
        self.link.send_cmd16(0x0460)
    }
}

/// Encodes a gain factor, if it is positive and finite.
fn encode_gain_factor(correction_factor: Binary32) -> (encoded: Option<[u8; 3]>)
    ensures
        match encoded {
            Some(bytes) => correction_factor.is_positive() && bytes@ == crate::float24::bytes_of(correction_factor),
            None => !correction_factor.is_positive(),
        },
{
    if correction_factor.is_positive() {
        Some(Float24::new(correction_factor).encode())
    } else {
        None
    }
}

/// FIFO drains, generic over the capacity of the buffer, and access to the traffic.
impl<E, P: PollMethod<E>> LTC2949<E, P> {
    /// Constructs an LTC2949 client that ends its commands as `poll_method` says.
    pub fn with_polling(bus: SpiTranscript<E>, poll_method: P) -> (client: Self)
        ensures
            client@ == (LinkView { page: None, end: poll_method.end_actions(), bus: bus@ }),
    {
        LTC2949 { link: Link::new(bus, poll_method) }
    }

    /// The link that carries the commands.
    pub fn link(&self) -> (link: &Link<E, P>)
        ensures
            link@ == self@,
    {
        &self.link
    }

    /// The link that carries the commands, for the host to enter replies.
    pub fn link_mut(&mut self) -> (link: &mut Link<E, P>)
        ensures
            link@ == old(self)@,
            final(self)@ == final(link)@,
    {
        &mut self.link
    }

    /// Drains up to `N` I1 FIFO samples (3 bytes each: MSB, LSB, TAG). Stops at the first
    /// sample that is not `Valid`, which is included as the terminator so the caller can read
    /// its `tag`.
    pub fn read_fifo_i1<const N: usize>(&mut self) -> (result: Result<heapless::Vec<FifoSample, N>, Error<E>>)
        ensures
            final(self)@ == old(self)@.drain(0xF7, N as nat, 5).1,
            crate::fifo::yields_samples(result, old(self)@.drain(0xF7, N as nat, 5).0),
    {
        self.read_fifo(RegAddressP0::FifoI1)
    }

    /// Drains up to `N` samples from the I2 FIFO.
    pub fn read_fifo_i2<const N: usize>(&mut self) -> (result: Result<heapless::Vec<FifoSample, N>, Error<E>>)
        ensures
            final(self)@ == old(self)@.drain(0xF8, N as nat, 5).1,
            crate::fifo::yields_samples(result, old(self)@.drain(0xF8, N as nat, 5).0),
    {
        self.read_fifo(RegAddressP0::FifoI2)
    }

    /// Drains up to `N` samples from the BAT (P1/P2 voltage-mode) FIFO.
    pub fn read_fifo_bat<const N: usize>(&mut self) -> (result: Result<heapless::Vec<FifoSample, N>, Error<E>>)
        ensures
            final(self)@ == old(self)@.drain(0xF9, N as nat, 5).1,
            crate::fifo::yields_samples(result, old(self)@.drain(0xF9, N as nat, 5).0),
    {
        self.read_fifo(RegAddressP0::FifoBat)
    }

    /// Drains up to `N` samples from the AUX FIFO.
    pub fn read_fifo_aux<const N: usize>(&mut self) -> (result: Result<heapless::Vec<FifoSample, N>, Error<E>>)
        ensures
            final(self)@ == old(self)@.drain(0xFA, N as nat, 5).1,
            crate::fifo::yields_samples(result, old(self)@.drain(0xFA, N as nat, 5).0),
    {
        self.read_fifo(RegAddressP0::FifoAux)
    }

    fn read_fifo<const N: usize>(&mut self, reg: RegAddressP0) -> (result: Result<
        heapless::Vec<FifoSample, N>,
        Error<E>,
    >)
        ensures
            final(self)@ == old(self)@.drain(reg.addr(), N as nat, 5).1,
            crate::fifo::yields_samples(result, old(self)@.drain(reg.addr(), N as nat, 5).0),
    {
        crate::fifo::drain_fifo(&mut self.link, reg.addr(), crate::fifo::SAMPLES_PER_BURST)
    }

    fn write_gain_factor(&mut self, address: RegAddressP1, correction_factor: Binary32) -> (result: Result<(), Error<E>>)
        ensures
            (result, final(self)@) == old(self)@.write_gain(address.addr(), correction_factor),
    {
        match encode_gain_factor(correction_factor) {
            None => Err(Error::InvalidGainCorrection),
            Some(encoded) => self.link.write_register(Page::Page1, address.addr(), &encoded),
        }
    }

    fn write_signed_16_threshold_pair(
        &mut self,
        high_address: RegAddressP1,
        low: Binary64,
        high: Binary64,
        lsb: Binary64,
    ) -> (result: Result<(), Error<E>>)
        ensures
            (result, final(self)@) == old(self)@.write_pair_16(high_address.addr(), low, high, Some(lsb)),
    {
        if low.is_above(high) {
            return Err(Error::InvalidThreshold);
        }
        match (crate::thresholds::quantize_signed_16(high, lsb), crate::thresholds::quantize_signed_16(low, lsb)) {
            (Some(high_code), Some(low_code)) => {
                let mut bytes = crate::bytes::signed_to_be(high_code as i64, 2);
                let low_bytes = crate::bytes::signed_to_be(low_code as i64, 2);
                let ghost high_bytes = bytes@;
                bytes.extend_from_slice(low_bytes.as_slice());
                proof {
                    assert(bytes@ =~= high_bytes + low_bytes@);
                }
                self.link.write_register(Page::Page1, high_address.addr(), bytes.as_slice())
            },
            _ => Err(Error::InvalidThreshold),
        }
    }

    fn write_signed_48_threshold_pair(
        &mut self,
        high_address: RegAddressP1,
        low: Binary64,
        high: Binary64,
        lsb: Binary64,
    ) -> (result: Result<(), Error<E>>)
        ensures
            (result, final(self)@) == old(self)@.write_pair_48(high_address.addr(), low, high, lsb),
    {
        if low.is_above(high) {
            return Err(Error::InvalidThreshold);
        }
        match (crate::thresholds::quantize_signed_48(high, lsb), crate::thresholds::quantize_signed_48(low, lsb)) {
            (Some(high_code), Some(low_code)) => {
                let mut bytes = crate::bytes::signed_to_be(high_code, 6);
                let low_bytes = crate::bytes::signed_to_be(low_code, 6);
                let ghost high_bytes = bytes@;
                bytes.extend_from_slice(low_bytes.as_slice());
                proof {
                    assert(bytes@ =~= high_bytes + low_bytes@);
                }
                self.link.write_register(Page::Page1, high_address.addr(), bytes.as_slice())
            },
            _ => Err(Error::InvalidThreshold),
        }
    }

    fn write_signed_64_threshold_pair(
        &mut self,
        high_address: RegAddressP1,
        low_address: RegAddressP1,
        low: Binary64,
        high: Binary64,
        lsb: Binary64,
    ) -> (result: Result<(), Error<E>>)
        ensures
            (result, final(self)@) == old(self)@.write_pair_64(
                high_address.addr(),
                low_address.addr(),
                low,
                high,
                lsb,
            ),
    {
        if low.is_above(high) {
            return Err(Error::InvalidThreshold);
        }
        match (crate::thresholds::quantize_signed_64(high, lsb), crate::thresholds::quantize_signed_64(low, lsb)) {
            (Some(high_code), Some(low_code)) => {
                let high_bytes = crate::bytes::signed_to_be(high_code, 8);
                let low_bytes = crate::bytes::signed_to_be(low_code, 8);
                self.link.write_two_registers(
                    Page::Page1,
                    high_address.addr(),
                    high_bytes.as_slice(),
                    low_address.addr(),
                    low_bytes.as_slice(),
                )
            },
            _ => Err(Error::InvalidThreshold),
        }
    }
}

/// Whether an outcome either does not carry `error`, or leaves the link as it was.
pub open spec fn refused_untouched<E>(
    link: LinkView<E>,
    outcome: (Result<(), Error<E>>, LinkView<E>),
    error: Error<E>,
) -> bool {
    outcome.0 == Err::<(), Error<E>>(error) ==> outcome.1 == link
}

/// A threshold that is refused is refused before anything goes out on the bus.
#[verifier::rlimit(40)]
pub proof fn invalid_thresholds_send_nothing<E>(
    link: LinkView<E>,
    addr: u8,
    low: Binary64,
    high: Binary64,
    lsb: Option<Binary64>,
    charge: ChargeAccumulator,
    energy: EnergyAccumulator,
    time_base: TimeBase,
    shunt_ohms: Binary64,
    clock: AccumulatorClock,
)
    ensures
        refused_untouched(link, link.write_pair_16(addr, low, high, lsb), Error::InvalidThreshold),
        refused_untouched(
            link,
            link.write_charge_thresholds(charge, low, high, shunt_ohms, clock),
            Error::InvalidThreshold,
        ),
        refused_untouched(
            link,
            link.write_energy_thresholds(energy, low, high, shunt_ohms, clock),
            Error::InvalidThreshold,
        ),
        refused_untouched(link, link.write_time_threshold(time_base, high, clock), Error::InvalidThreshold),
{
    lemma_writes_are_not_refused(link);
}

/// Once a write goes out, only the bus can end it.
proof fn lemma_writes_are_not_refused<E>(link: LinkView<E>)
    ensures
        forall|page: Page, addr: u8, data: Seq<u8>|
            (#[trigger] link.write_register(page, addr, data)).0 matches Err(error) ==> error is BusError
                || error is Awaiting,
        forall|page: Page, first_addr: u8, first: Seq<u8>, second_addr: u8, second: Seq<u8>|
            (#[trigger] link.write_two_registers(page, first_addr, first, second_addr, second)).0 matches Err(error)
                ==> error is BusError || error is Awaiting,
{
}

/// A gain correction that is refused is refused before anything goes out on the bus.
pub proof fn invalid_gains_send_nothing<E>(
    link: LinkView<E>,
    addr: u8,
    factor: Binary32,
    numerator: Binary32,
    denominator: Binary32,
    slot: MuxGainSlot,
    negative: MuxInput,
    positive: MuxInput,
)
    ensures
        refused_untouched(link, link.write_gain(addr, factor), Error::InvalidGainCorrection),
        refused_untouched(link, link.write_ratio(addr, numerator, denominator), Error::InvalidGainCorrection),
        refused_untouched(
            link,
            link.write_mux_gain(slot, factor, negative, positive),
            Error::InvalidGainCorrection,
        ),
{
    lemma_writes_are_not_refused(link);
}

/// Whether thresholds that two codes stand for, over the LSB with the bits `lsb`, are written to
/// `addr` as those codes, the high one first.
pub open spec fn writes_codes_back<E>(link: LinkView<E>, addr: u8, low: i16, high: i16, lsb: u32) -> bool {
    link.write_pair_16(
        addr,
        crate::thresholds::decoded(low, Binary32 { bits: lsb }),
        crate::thresholds::decoded(high, Binary32 { bits: lsb }),
        Some(lsb_of(lsb)),
    ) == link.write_register(
        Page::Page1,
        addr,
        crate::bytes::encoded(high as int, 2) + crate::bytes::encoded(low as int, 2),
    )
}

/// Decoding two ordered codes and writing them as thresholds writes the codes: for the battery,
/// the supply, a SLOT in either of its meanings, and the die temperature in degrees Celsius.
pub proof fn decoded_codes_are_written_back<E>(link: LinkView<E>, low: i16, high: i16, slot: Channel)
    requires
        low <= high,
    ensures
        writes_codes_back(link, RegAddressP1::BatTh.addr(), low, high, BatteryVoltage::LSB_VOLTS),
        writes_codes_back(link, RegAddressP1::VccTh.addr(), low, high, SupplyVoltage::LSB_VOLTS),
        writes_codes_back(link, slot_threshold_register(slot).addr(), low, high, SlotValue::LSB_VOLTS),
        writes_codes_back(link, slot_threshold_register(slot).addr(), low, high, SlotValue::LSB_DEGREES_CELSIUS),
        link.write_pair_16(
            RegAddressP1::TempTh.addr(),
            crate::thresholds::kelvin(crate::thresholds::celsius(low)),
            crate::thresholds::kelvin(crate::thresholds::celsius(high)),
            Some(lsb_of(DieTemperature::LSB_KELVIN)),
        ) == link.write_register(
            Page::Page1,
            RegAddressP1::TempTh.addr(),
            crate::bytes::encoded(high as int, 2) + crate::bytes::encoded(low as int, 2),
        ),
{
    crate::thresholds::decoded_temperatures_read_back(low, high);
    crate::thresholds::decoded_pair_reads_back(low, high, Binary32 { bits: BatteryVoltage::LSB_VOLTS });
    crate::thresholds::decoded_pair_reads_back(low, high, Binary32 { bits: SupplyVoltage::LSB_VOLTS });
    crate::thresholds::decoded_pair_reads_back(low, high, Binary32 { bits: SlotValue::LSB_VOLTS });
    crate::thresholds::decoded_pair_reads_back(low, high, Binary32 { bits: SlotValue::LSB_DEGREES_CELSIUS });
}

/// Decoding two ordered battery codes and writing them as thresholds succeeds if the bus takes
/// the writes, and the last command is the write of the codes to BATTH and BATTL, 0x90 on PAGE1.
pub proof fn decoded_battery_codes_go_out<E>(link: LinkView<E>, low: i16, high: i16)
    requires
        low <= high,
        link.bus.covers(2 + 2 * link.end.len()),
    ensures
        ({
            let lsb = Binary32 { bits: BatteryVoltage::LSB_VOLTS };
            let outcome = link.write_pair_16(
                RegAddressP1::BatTh.addr(),
                Binary32::of_integer(low as int).product(lsb).widened(),
                Binary32::of_integer(high as int).product(lsb).widened(),
                Some(lsb_of(BatteryVoltage::LSB_VOLTS)),
            );
            let data = crate::bytes::encoded(high as int, 2) + crate::bytes::encoded(low as int, 2);
            &&& outcome.0 is Ok
            &&& outcome.1.page == Some(Page::Page1)
            &&& (seq![crate::link::write_action(0x90, data)] + link.end).is_suffix_of(outcome.1.bus.sent)
        }),
{
    let data = crate::bytes::encoded(high as int, 2) + crate::bytes::encoded(low as int, 2);
    decoded_codes_are_written_back(link, low, high, Channel::One);
    crate::laws::accepted_write_goes_out_last(link, Page::Page1, 0x90, data);
}

/// The low threshold of a channel follows its high threshold, so that one burst of two 16-bit
/// codes sets both; so do the registers of the other bursts.
pub proof fn bursts_cover_adjacent_registers(channel: Channel, slot: MuxGainSlot)
    ensures
        current_threshold_register(channel).addr() + 2 == (match channel {
            Channel::One => RegAddressP1::I1Tl,
            Channel::Two => RegAddressP1::I2Tl,
        }).addr(),
        power_threshold_register(channel).addr() + 2 == (match channel {
            Channel::One => RegAddressP1::P1Tl,
            Channel::Two => RegAddressP1::P2Tl,
        }).addr(),
        slot_threshold_register(channel).addr() + 2 == (match channel {
            Channel::One => RegAddressP1::Slot1Tl,
            Channel::Two => RegAddressP1::Slot2Tl,
        }).addr(),
        crate::compensation::slot_mux_register(channel).addr() + 1 == (match channel {
            Channel::One => RegAddressP0::Slot1MuxP,
            Channel::Two => RegAddressP0::Slot2MuxP,
        }).addr(),
        mux_gain_registers(slot).1.addr() + 1 == (match slot {
            MuxGainSlot::One => RegAddressP1::MuxPset1,
            MuxGainSlot::Two => RegAddressP1::MuxPset2,
            MuxGainSlot::Three => RegAddressP1::MuxPset3,
            MuxGainSlot::Four => RegAddressP1::MuxPset4,
        }).addr(),
{
}

} // verus!
