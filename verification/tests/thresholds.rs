//! Threshold and gain-correction writes.
use ltc2949::binary::{Binary32, Binary64};
use ltc2949::bus::{Action, SpiTranscript};
use ltc2949::client::{
    AccumulatedCharge, AccumulatedEnergy, AccumulatedTime, AccumulatorClock, AveragedCurrentSenseVoltage,
    BatteryVoltage, Channel, ChargeAccumulator, Client, CurrentSenseVoltage, DieTemperature, EnergyAccumulator, Error,
    MuxGainSlot, MuxInput, PowerOrVoltage, SlotValue, SupplyVoltage, TimeBase, LTC2949,
};
use ltc2949::dcmd::build_write;
use ltc2949::float24::Float24;
use ltc2949::polling::NoPolling;
use ltc2949::thresholds::{
    accumulator_lsbs, divide_lsb_by_shunt, positive_ratio, quantize_signed_16, quantize_signed_48, quantize_signed_64,
    quantize_unsigned_32, EXTERNAL_CHARGE_SCALE, EXTERNAL_ENERGY_SCALE, EXTERNAL_TIME_SCALE, MAX_48, MIN_48,
};

fn b32(value: f32) -> Binary32 {
    Binary32::from_bits(value.to_bits())
}

fn b64(value: f64) -> Binary64 {
    Binary64::from_bits(value.to_bits())
}

/// A client whose device takes everything.
fn client() -> LTC2949<(), NoPolling> {
    let mut transcript = SpiTranscript::new();
    for _ in 0..8 {
        transcript.answer(Vec::new());
    }
    LTC2949::new(transcript)
}

/// The registers written after PAGE1 was selected, as address and data.
fn page1_writes(client: &LTC2949<(), NoPolling>) -> Vec<(u8, Vec<u8>)> {
    let sent = client.link().bus().sent();
    assert_eq!(Action::Write(build_write(0xFF, &[0x81])), sent[0]);
    sent[1..]
        .iter()
        .map(|action| match action {
            Action::Write(frame) => {
                let data = frame[5..frame.len() - 2].to_vec();
                assert_eq!(&build_write(frame[1], &data), frame);
                (frame[1], data)
            }
            other => panic!("unexpected action {other:?}"),
        })
        .collect()
}

fn codes_16(writes: &[(u8, Vec<u8>)], addr: u8) -> (i16, i16) {
    assert_eq!(1, writes.len());
    assert_eq!(addr, writes[0].0);
    let data = &writes[0].1;
    assert_eq!(4, data.len());
    (
        i16::from_be_bytes([data[0], data[1]]),
        i16::from_be_bytes([data[2], data[3]]),
    )
}

#[test]
fn battery_thresholds_write_high_then_low_code() {
    let mut client = client();
    client.write_battery_thresholds(b32(0.0), b32(10.0)).unwrap();
    // 10 V / 375 uV = 26666.67, rounded to 26667.
    assert_eq!((26667, 0), codes_16(&page1_writes(&client), 0x90));
}

#[test]
fn current_thresholds_use_the_shunt() {
    for (channel, addr) in [(Channel::One, 0x80), (Channel::Two, 0x88)] {
        let mut client = client();
        client
            .write_current_thresholds(channel, b32(-100.0), b32(100.0), b32(100e-6))
            .unwrap();
        // 100 A * 100 uOhm = 10 mV; 10 mV / 3.8 uV = 2631.58, rounded to 2632.
        assert_eq!((2632, -2632), codes_16(&page1_writes(&client), addr));
    }
}

#[test]
fn power_thresholds_use_the_shunt() {
    for (channel, addr) in [(Channel::One, 0x84), (Channel::Two, 0x8C)] {
        let mut client = client();
        client
            .write_power_thresholds(channel, b32(-0.001), b32(0.002), b32(100e-6))
            .unwrap();
        // 2 mW * 100 uOhm / 23.3472e-12 V^2 = 8566.34; 1 mW is 4283.17.
        assert_eq!((8566, -4283), codes_16(&page1_writes(&client), addr));
    }
}

#[test]
fn voltage_mode_power_thresholds() {
    for (channel, addr) in [(Channel::One, 0x84), (Channel::Two, 0x8C)] {
        let mut client = client();
        client
            .write_power_as_voltage_thresholds(channel, b32(-1.0), b32(3.0))
            .unwrap();
        // 3 V / 187.5 uV = 16000; 1 V is 5333.33.
        assert_eq!((16000, -5333), codes_16(&page1_writes(&client), addr));
    }
}

#[test]
fn temperature_thresholds_are_stored_in_kelvin() {
    let mut client = client();
    client.write_temperature_thresholds(b32(-40.0), b32(85.0)).unwrap();
    // 358.15 K / 0.2 K = 1790.75; 233.15 K is 1165.75.
    assert_eq!((1791, 1166), codes_16(&page1_writes(&client), 0x94));
}

#[test]
fn supply_and_slot_thresholds() {
    let mut supply = client();
    supply.write_vcc_thresholds(b32(2.9), b32(3.6)).unwrap();
    // 3.6 V / 2.26 mV = 1592.92; 2.9 V is 1283.19.
    assert_eq!((1593, 1283), codes_16(&page1_writes(&supply), 0x98));
    for (slot, addr) in [(Channel::One, 0xA0), (Channel::Two, 0xA4)] {
        let mut voltage = client();
        voltage.write_slot_voltage_thresholds(slot, b32(0.375), b32(0.75)).unwrap();
        assert_eq!((2000, 1000), codes_16(&page1_writes(&voltage), addr));
        let mut temperature = client();
        temperature
            .write_slot_temperature_thresholds(slot, b32(-20.0), b32(60.0))
            .unwrap();
        assert_eq!((300, -100), codes_16(&page1_writes(&temperature), addr));
    }
}

#[test]
fn charge_thresholds_write_48_bits_in_one_burst() {
    for (accumulator, addr) in [(ChargeAccumulator::Charge1, 0x00), (ChargeAccumulator::Charge2, 0x20)] {
        let mut client = client();
        client
            .write_charge_thresholds(
                accumulator,
                b64(-100.0),
                b64(100.0),
                b64(100e-6),
                AccumulatorClock::Internal,
            )
            .unwrap();
        // 100 C * 100 uOhm / 377.887e-12 Vs = 26462937.33.
        let mut expected = 26462937i64.to_be_bytes()[2..].to_vec();
        expected.extend_from_slice(&(-26462937i64).to_be_bytes()[2..]);
        assert_eq!(vec![(addr, expected)], page1_writes(&client));
    }
}

#[test]
fn weighted_charge_thresholds_write_64_bits_in_two_bursts() {
    let mut client = client();
    client
        .write_charge_thresholds(
            ChargeAccumulator::Charge3,
            b64(-100.0),
            b64(100.0),
            b64(100e-6),
            AccumulatorClock::Internal,
        )
        .unwrap();
    assert_eq!(
        vec![
            (0x44, 26462937i64.to_be_bytes().to_vec()),
            (0x54, (-26462937i64).to_be_bytes().to_vec()),
        ],
        page1_writes(&client)
    );
}

#[test]
fn energy_thresholds_target_their_registers() {
    // 50 J * 100 uOhm / 2.32175e-9 V^2s = 2153548.00.
    let code = (50.0f64 * 100e-6 / 2.32175e-9).round() as i64;
    for (accumulator, addr) in [(EnergyAccumulator::Energy1, 0x10), (EnergyAccumulator::Energy2, 0x30)] {
        let mut client = client();
        client
            .write_energy_thresholds(accumulator, b64(0.0), b64(50.0), b64(100e-6), AccumulatorClock::Internal)
            .unwrap();
        let mut expected = code.to_be_bytes()[2..].to_vec();
        expected.extend_from_slice(&[0; 6]);
        assert_eq!(vec![(addr, expected)], page1_writes(&client));
    }
    let mut client = client();
    client
        .write_energy_thresholds(
            EnergyAccumulator::Energy4,
            b64(-50.0),
            b64(50.0),
            b64(100e-6),
            AccumulatorClock::Internal,
        )
        .unwrap();
    assert_eq!(
        vec![
            (0x64, code.to_be_bytes().to_vec()),
            (0x74, (-code).to_be_bytes().to_vec()),
        ],
        page1_writes(&client)
    );
}

#[test]
fn time_thresholds_target_their_registers() {
    for (time_base, addr) in [
        (TimeBase::Time1, 0x0C),
        (TimeBase::Time2, 0x2C),
        (TimeBase::Time3, 0x4C),
        (TimeBase::Time4, 0x6C),
    ] {
        let mut client = client();
        client
            .write_time_threshold(time_base, b64(10.0), AccumulatorClock::Internal)
            .unwrap();
        // 10 s / 397.777 us = 25139.71.
        assert_eq!(vec![(addr, 25140u32.to_be_bytes().to_vec())], page1_writes(&client));
    }
}

#[test]
fn external_clock_scales_follow_the_divider() {
    let lsbs = accumulator_lsbs(AccumulatorClock::External {
        frequency_hz: b64(4e6),
        pre: 2,
        div: 30,
    })
    .unwrap();
    let factor = 4.0 * 31.0 / 4e6;
    assert_eq!((1.21899e-5f64 * factor).to_bits(), lsbs.charge.to_bits());
    assert_eq!((7.4895e-5f64 * factor).to_bits(), lsbs.energy.to_bits());
    assert_eq!((12.8315f64 * factor).to_bits(), lsbs.time.to_bits());

    let mut client = client();
    client
        .write_time_threshold(
            TimeBase::Time1,
            b64(10.0),
            AccumulatorClock::External {
                frequency_hz: b64(1e6),
                pre: 7,
                div: 31,
            },
        )
        .unwrap();
    // 10 s / (12.8315 * 4096 / 1 MHz) = 190.27.
    assert_eq!(vec![(0x0C, 190u32.to_be_bytes().to_vec())], page1_writes(&client));
}

#[test]
fn internal_clock_is_the_default() {
    assert_eq!(AccumulatorClock::Internal, AccumulatorClock::default());
    let lsbs = accumulator_lsbs(AccumulatorClock::default()).unwrap();
    assert_eq!(377.887e-12f64.to_bits(), lsbs.charge.to_bits());
    assert_eq!(2.32175e-9f64.to_bits(), lsbs.energy.to_bits());
    assert_eq!(397.777e-6f64.to_bits(), lsbs.time.to_bits());
}

#[test]
fn invalid_clocks_are_refused() {
    let external = |frequency_hz: f64, pre: u8, div: u8| AccumulatorClock::External {
        frequency_hz: b64(frequency_hz),
        pre,
        div,
    };
    for clock in [
        external(0.0, 0, 0),
        external(-1.0, 0, 0),
        external(f64::NAN, 0, 0),
        external(f64::INFINITY, 0, 0),
        external(1e6, 8, 0),
        external(1e6, 0, 32),
    ] {
        assert!(!clock.is_valid());
        assert_eq!(None, accumulator_lsbs(clock));
        let mut client = client();
        assert_eq!(
            Err(Error::InvalidThreshold),
            client.write_time_threshold(TimeBase::Time1, b64(1.0), clock)
        );
        assert_eq!(
            Err(Error::InvalidThreshold),
            client.write_charge_thresholds(ChargeAccumulator::Charge1, b64(0.0), b64(1.0), b64(1.0), clock)
        );
        assert_eq!(
            Err(Error::InvalidThreshold),
            client.write_energy_thresholds(EnergyAccumulator::Energy1, b64(0.0), b64(1.0), b64(1.0), clock)
        );
        assert!(client.link().bus().sent().is_empty());
    }
    assert!(external(1e6, 7, 31).is_valid());
    // A clock factor that is not finite leaves no LSB to divide by.
    let mut client = client();
    assert_eq!(
        Err(Error::InvalidThreshold),
        client.write_time_threshold(TimeBase::Time1, b64(1.0), external(f64::from_bits(1), 7, 31))
    );
}

#[test]
fn invalid_shunts_are_refused() {
    for shunt in [0.0f32, -1.0, f32::NAN, f32::INFINITY] {
        let mut client = client();
        assert_eq!(
            Err(Error::InvalidThreshold),
            client.write_current_thresholds(Channel::One, b32(0.0), b32(1.0), b32(shunt))
        );
        assert_eq!(
            Err(Error::InvalidThreshold),
            client.write_power_thresholds(Channel::One, b32(0.0), b32(1.0), b32(shunt))
        );
        assert_eq!(
            Err(Error::InvalidThreshold),
            client.write_charge_thresholds(
                ChargeAccumulator::Charge3,
                b64(0.0),
                b64(1.0),
                b64(shunt as f64),
                AccumulatorClock::Internal
            )
        );
        assert!(client.link().bus().sent().is_empty());
        assert_eq!(None, divide_lsb_by_shunt(b64(1.0), b64(shunt as f64)));
    }
    assert_eq!(Some(b64(1.0 / 3.0)), divide_lsb_by_shunt(b64(1.0), b64(3.0)));
}

#[test]
fn unordered_or_non_finite_pairs_are_refused() {
    for (low, high) in [
        (1.0f32, 0.5f32),
        (f32::NAN, 1.0),
        (0.0, f32::NAN),
        (f32::NEG_INFINITY, 0.0),
        (0.0, f32::INFINITY),
        (0.0, 12.3),
        (-12.3, 0.0),
    ] {
        let mut client = client();
        assert_eq!(
            Err(Error::InvalidThreshold),
            client.write_battery_thresholds(b32(low), b32(high)),
            "{low} {high}"
        );
        assert_eq!(
            Err(Error::InvalidThreshold),
            client.write_temperature_thresholds(b32(low * 1e6), b32(high * 1e6))
        );
        assert!(client.link().bus().sent().is_empty());
    }
    let mut equal = client();
    equal.write_battery_thresholds(b32(1.5), b32(1.5)).unwrap();
    assert_eq!((4000, 4000), codes_16(&page1_writes(&equal), 0x90));
}

#[test]
fn sixteen_bit_codes_round_half_away_and_stop_at_the_range() {
    let code = |value: f64| quantize_signed_16(b64(value), b64(1.0));
    assert_eq!(Some(0), code(0.49999999999999994));
    assert_eq!(Some(1), code(0.5));
    assert_eq!(Some(-1), code(-0.5));
    assert_eq!(Some(i16::MAX), code(32767.49));
    assert_eq!(None, code(32767.5));
    assert_eq!(Some(i16::MIN), code(-32768.49));
    assert_eq!(None, code(-32768.5));
    assert_eq!(None, code(f64::NAN));
    assert_eq!(None, quantize_signed_16(b64(1.0), b64(0.0)));
    assert_eq!(None, quantize_signed_16(b64(1.0), b64(-1.0)));
    assert_eq!(None, quantize_signed_16(b64(1.0), b64(f64::INFINITY)));
    assert_eq!(None, quantize_signed_16(b64(1.0), b64(f64::NAN)));
}

#[test]
fn wide_codes_stop_at_the_range() {
    let one = b64(1.0);
    assert_eq!(Some(MAX_48), quantize_signed_48(b64(140737488355327.25), one));
    assert_eq!(None, quantize_signed_48(b64(140737488355327.5), one));
    assert_eq!(Some(MIN_48), quantize_signed_48(b64(-140737488355328.25), one));
    assert_eq!(None, quantize_signed_48(b64(-140737488355328.5), one));
    assert_eq!(Some(i64::MIN), quantize_signed_64(b64(-9223372036854775808.0), one));
    assert_eq!(None, quantize_signed_64(b64(9223372036854775808.0), one));
    assert_eq!(
        Some(9223372036854774784),
        quantize_signed_64(b64(9223372036854774784.0), one)
    );
    assert_eq!(Some(u32::MAX), quantize_unsigned_32(b64(4294967295.4), one));
    assert_eq!(None, quantize_unsigned_32(b64(4294967295.5), one));
    assert_eq!(Some(0), quantize_unsigned_32(b64(-0.0), one));
    assert_eq!(None, quantize_unsigned_32(b64(-0.1), one));
}

#[test]
fn quantization_matches_the_machine() {
    let mut state: u64 = 0x1234_5678_9ABC_DEF0;
    for _ in 0..20_000 {
        state = state.wrapping_mul(6364136223846793005).wrapping_add(1442695040888963407);
        let value = ((state >> 20) as f64 / 1e6) - 8e6;
        let lsb = ((state & 0xFFFF) as f64 + 1.0) * 1e-3;
        let scaled = value / lsb;
        let expected = if scaled <= -32768.5 || scaled >= 32767.5 {
            None
        } else {
            Some(scaled.round() as i16)
        };
        assert_eq!(expected, quantize_signed_16(b64(value), b64(lsb)), "{value} / {lsb}");
    }
}

#[test]
fn gain_corrections_write_float24_factors() {
    for (channel, addr) in [(Channel::One, 0xB0), (Channel::Two, 0xB3)] {
        let mut direct = client();
        direct.write_shunt_gain_correction(channel, b32(0.95)).unwrap();
        assert_eq!(vec![(addr, vec![0x3E, 0xE6, 0x66])], page1_writes(&direct));

        let mut derived = client();
        derived
            .write_shunt_gain_correction_from_resistances(channel, b32(95e-6), b32(100e-6))
            .unwrap();
        let expected = Float24::new(b32(95e-6f32 / 100e-6f32)).encode().to_vec();
        assert_eq!(vec![(addr, expected)], page1_writes(&derived));
    }
    let mut ratio = client();
    ratio.write_shunt_ratio(b32(3.0), b32(2.0)).unwrap();
    assert_eq!(vec![(0xB6, vec![0x3F, 0x80, 0x00])], page1_writes(&ratio));
    let mut battery = client();
    battery.write_battery_gain_correction(b32(1.0)).unwrap();
    assert_eq!(vec![(0xB9, vec![0x3F, 0x00, 0x00])], page1_writes(&battery));
}

#[test]
fn mux_gain_correction_writes_factor_and_inputs() {
    for (slot, gain, inputs) in [
        (MuxGainSlot::One, 0xC0, 0xBC),
        (MuxGainSlot::Two, 0xC3, 0xBE),
        (MuxGainSlot::Three, 0xC6, 0xCC),
        (MuxGainSlot::Four, 0xC9, 0xCE),
    ] {
        let mut client = client();
        client
            .write_mux_gain_correction(slot, b32(0.95), MuxInput::Agnd, MuxInput::V3)
            .unwrap();
        assert_eq!(
            vec![(gain, vec![0x3E, 0xE6, 0x66]), (inputs, vec![0, 3])],
            page1_writes(&client)
        );
    }
}

#[test]
fn invalid_gain_corrections_are_refused() {
    for factor in [0.0f32, -0.0, -1.0, f32::NAN, f32::INFINITY] {
        let mut client = client();
        let refused = Err(Error::InvalidGainCorrection);
        assert_eq!(refused, client.write_shunt_gain_correction(Channel::One, b32(factor)));
        assert_eq!(refused, client.write_battery_gain_correction(b32(factor)));
        assert_eq!(refused, client.write_shunt_ratio(b32(factor), b32(1.0)));
        assert_eq!(refused, client.write_shunt_ratio(b32(1.0), b32(factor)));
        assert_eq!(
            refused,
            client.write_shunt_gain_correction_from_resistances(Channel::Two, b32(1.0), b32(factor))
        );
        assert_eq!(
            refused,
            client.write_mux_gain_correction(MuxGainSlot::One, b32(factor), MuxInput::Agnd, MuxInput::V1)
        );
        assert!(client.link().bus().sent().is_empty());
    }
    // The ratio of two sound resistances can be too large or too small.
    assert_eq!(None, positive_ratio(b32(f32::MAX), b32(0.5)));
    assert_eq!(None, positive_ratio(b32(f32::from_bits(1)), b32(4.0)));
    assert_eq!(Some(b32(1.5)), positive_ratio(b32(3.0), b32(2.0)));
}

#[test]
fn scales_are_the_datasheet_values() {
    assert_eq!(950e-9f32.to_bits(), CurrentSenseVoltage::LSB_VOLTS);
    assert_eq!((4.0 * 950e-9f32).to_bits(), CurrentSenseVoltage::THRESHOLD_LSB_VOLTS);
    assert_eq!(237.5e-9f32.to_bits(), AveragedCurrentSenseVoltage::LSB_VOLTS);
    assert_eq!(5.8368e-12f32.to_bits(), PowerOrVoltage::POWER_LSB_VOLT_SQUARED);
    assert_eq!(
        (4.0 * 5.8368e-12f32).to_bits(),
        PowerOrVoltage::POWER_THRESHOLD_LSB_VOLT_SQUARED
    );
    assert_eq!(46.875e-6f32.to_bits(), PowerOrVoltage::VOLTAGE_LSB_VOLTS);
    assert_eq!(
        (4.0 * 46.875e-6f32).to_bits(),
        PowerOrVoltage::VOLTAGE_THRESHOLD_LSB_VOLTS
    );
    assert_eq!(375e-6f32.to_bits(), BatteryVoltage::LSB_VOLTS);
    assert_eq!(0.2f32.to_bits(), DieTemperature::LSB_KELVIN);
    assert_eq!(273.15f32.to_bits(), DieTemperature::ZERO_CELSIUS_KELVIN);
    assert_eq!(2.26e-3f32.to_bits(), SupplyVoltage::LSB_VOLTS);
    assert_eq!(375e-6f32.to_bits(), SlotValue::LSB_VOLTS);
    assert_eq!(0.2f32.to_bits(), SlotValue::LSB_DEGREES_CELSIUS);
    assert_eq!(377.887e-12f64.to_bits(), AccumulatedCharge::LSB_VOLT_SECONDS);
    assert_eq!(2.32175e-9f64.to_bits(), AccumulatedEnergy::LSB_VOLT_SQUARED_SECONDS);
    assert_eq!(397.777e-6f64.to_bits(), AccumulatedTime::LSB_SECONDS);
    assert_eq!(1.21899e-5f64.to_bits(), EXTERNAL_CHARGE_SCALE);
    assert_eq!(7.4895e-5f64.to_bits(), EXTERNAL_ENERGY_SCALE);
    assert_eq!(12.8315f64.to_bits(), EXTERNAL_TIME_SCALE);
}

#[test]
fn results_decode_as_the_machine_does() {
    for raw in [0i32, 1, -1, 291, -512, 0x7F_FFFF, -0x80_0000] {
        let value = raw as f32;
        assert_eq!(
            (value * 950e-9).to_bits(),
            CurrentSenseVoltage::from_raw(raw).decode().to_bits()
        );
        assert_eq!(
            (value * 237.5e-9).to_bits(),
            AveragedCurrentSenseVoltage::from_raw(raw).decode().to_bits()
        );
        let power = PowerOrVoltage::from_raw(raw);
        assert_eq!((value * 46.875e-6).to_bits(), power.decode_voltage().to_bits());
        assert_eq!(
            (value * 5.8368e-12 / 100e-6).to_bits(),
            power.decode_power(b32(100e-6)).to_bits()
        );
        assert!(PowerOrVoltage::from_raw(0).decode_power(b32(0.0)).is_nan());
    }
    for raw in [0i16, 1, -1, 12345, i16::MAX, i16::MIN] {
        let value = raw as f32;
        assert_eq!((value * 375e-6).to_bits(), BatteryVoltage::from_raw(raw).decode().to_bits());
        assert_eq!((value * 2.26e-3).to_bits(), SupplyVoltage::from_raw(raw).decode().to_bits());
        let temperature = DieTemperature::from_raw(raw);
        assert_eq!((value * 0.2).to_bits(), temperature.decode_kelvin().to_bits());
        assert_eq!((value * 0.2 - 273.15).to_bits(), temperature.decode_celsius().to_bits());
        let slot = SlotValue::from_raw(raw);
        assert_eq!((value * 375e-6).to_bits(), slot.decode_voltage().to_bits());
        assert_eq!((value * 0.2).to_bits(), slot.decode_temperature().to_bits());
    }
    for raw in [0i64, 1, -1, 10_000_000, i64::MAX, i64::MIN] {
        let value = raw as f64;
        let charge = AccumulatedCharge::from_raw(raw);
        assert_eq!((value * 377.887e-12).to_bits(), charge.decode().to_bits());
        assert_eq!(
            (value * 377.887e-12 / 100e-6).to_bits(),
            charge.decode_coulombs(b64(100e-6)).to_bits()
        );
        let energy = AccumulatedEnergy::from_raw(raw);
        assert_eq!((value * 2.32175e-9).to_bits(), energy.decode().to_bits());
        assert_eq!(
            (value * 2.32175e-9 / 100e-6).to_bits(),
            energy.decode_joules(b64(100e-6)).to_bits()
        );
    }
    for raw in [0u32, 1, 10_000, u32::MAX] {
        assert_eq!(
            (raw as f64 * 397.777e-6).to_bits(),
            AccumulatedTime::from_raw(raw).decode().to_bits()
        );
    }
}
