//! Properties that hold of every input, on concrete ones.
use ltc2949::binary::{Binary32, Binary64};
use ltc2949::bytes::{signed_from_be, signed_to_be, unsigned_from_be, unsigned_to_be};
use ltc2949::client::{Error, NtcConfig, ShuntTcConfig};
use ltc2949::float24::Float24;
use ltc2949::measurements::{BatteryVoltage, DieTemperature, SlotValue, SupplyVoltage};
use ltc2949::registers::{RegAddressP0, RegAddressP1};
use ltc2949::thresholds::{accumulator_lsbs, quantize_signed_16, AccumulatorClock, FOUR_MEGAHERTZ};

fn float24(value: f32) -> u32 {
    let bytes = Float24::new(Binary32::from_bits(value.to_bits())).encode();
    u32::from_be_bytes([0, bytes[0], bytes[1], bytes[2]])
}

/// The value of a Float24 number that is not zero.
fn decoded(code: u32) -> f64 {
    let magnitude = (1.0 + (code & 0xFFFF) as f64 / 65536.0) * 2f64.powi(((code >> 16) & 0x7F) as i32 - 63);
    if code & 0x80_0000 != 0 {
        -magnitude
    } else {
        magnitude
    }
}

#[test]
fn float24_truncates_towards_zero() {
    for value in [1.0f32, 0.95, 1.1382e-3, 0.93243e-7, 10_000.0, 3.999_999_8, 1e18] {
        let code = float24(value);
        assert!(decoded(code) <= value as f64 && (value as f64) < decoded(code + 1), "{value}");
        assert_eq!(code | 0x80_0000, float24(-value));
    }
}

#[test]
fn float24_keeps_the_order() {
    let values = [0.0f32, 1e-30, 1e-19, 1e-10, 0.5, 0.500_01, 1.0, 25.0, 1e10, 1.8e19, 1.9e19, f32::MAX];
    for pair in values.windows(2) {
        assert!(float24(pair[0]) <= float24(pair[1]));
    }
    assert_eq!(0x7E_FFFF, float24(f32::INFINITY));
}

#[test]
fn float24_clamps_to_its_range() {
    assert_eq!(0x00_0000, float24(f32::MIN_POSITIVE));
    assert_eq!(0x80_0000, float24(-0.0));
    assert_eq!(0x7E_FFFF, float24(f32::MAX));
    assert_eq!(0xFE_FFFF, float24(f32::MIN));
}

#[test]
fn numbers_come_back_from_their_bytes() {
    for value in [0u64, 1, 255, 256, 0xFFFF_FFFF] {
        assert_eq!(value, unsigned_from_be(&unsigned_to_be(value, 8)));
    }
    for value in [0i64, 1, -1, 127, -128, 0x7FFF, -0x8000] {
        assert_eq!(value, signed_from_be(&signed_to_be(value, 2)));
        assert_eq!(value, signed_from_be(&signed_to_be(value, 6)));
    }
    assert_eq!(i64::MIN, signed_from_be(&signed_to_be(i64::MIN, 8)));
    assert_eq!(vec![0xFF, 0xFE], signed_to_be(-2, 2));
    assert_eq!(-2, signed_from_be(&[0xFF, 0xFF, 0xFE]));
}

#[test]
fn codes_keep_the_order_of_their_values() {
    let lsb = Binary64::from_bits(375e-6f64.to_bits());
    let codes: Vec<i16> = [-12.0f64, -1.000_2, -1.0, -1e-9, 0.0, 1e-4, 2e-4, 1.0, 12.0]
        .iter()
        .map(|value| quantize_signed_16(Binary64::from_bits(value.to_bits()), lsb).unwrap())
        .collect();
    assert!(codes.windows(2).all(|pair| pair[0] <= pair[1]));
    assert_eq!(Some(&-32000), codes.first());
    assert_eq!(Some(&32000), codes.last());
}

#[test]
fn bursts_reach_the_register_behind() {
    assert_eq!(RegAddressP1::I1Th.addr() + 2, RegAddressP1::I1Tl.addr());
    assert_eq!(RegAddressP1::P2Th.addr() + 2, RegAddressP1::P2Tl.addr());
    assert_eq!(RegAddressP1::Slot1Th.addr() + 2, RegAddressP1::Slot1Tl.addr());
    assert_eq!(RegAddressP0::Slot2MuxN.addr() + 1, RegAddressP0::Slot2MuxP.addr());
    assert_eq!(RegAddressP1::MuxNset3.addr() + 1, RegAddressP1::MuxPset3.addr());
}

#[test]
fn zeros_are_equal_and_nan_is_not() {
    let number = |value: f32| Binary32::from_bits(value.to_bits());
    assert!(Float24::new(number(0.0)) == Float24::new(number(-0.0)));
    assert!(Float24::new(number(f32::NAN)) != Float24::new(number(f32::NAN)));
    assert!(Float24::new(number(1.0)) != Float24::new(number(-1.0)));
    let ntc = |c: f32| NtcConfig {
        r_ref: number(1.0),
        a: number(2.0),
        b: number(3.0),
        c: number(c),
    };
    assert!(ntc(0.0) == ntc(-0.0));
    assert!(ntc(f32::NAN) != ntc(f32::NAN));
    assert!(ntc(4.0) != ntc(5.0));
    let shunt = |tc2: f32| ShuntTcConfig {
        tc: number(0.0039),
        t_ref: number(25.0),
        tc2: number(tc2),
    };
    assert!(shunt(0.0) == shunt(-0.0));
    assert!(shunt(f32::NAN) != shunt(f32::NAN));
    let clock = |frequency_hz: f64, pre: u8| AccumulatorClock::External {
        frequency_hz: Binary64::from_bits(frequency_hz.to_bits()),
        pre,
        div: 0,
    };
    assert!(clock(0.0, 1) == clock(-0.0, 1));
    assert!(clock(1.0, 1) != clock(1.0, 2));
    assert!(clock(f64::NAN, 1) != clock(f64::NAN, 1));
    assert!(AccumulatorClock::Internal == AccumulatorClock::Internal);
    assert!(AccumulatorClock::Internal != clock(1.0, 1));
}

#[test]
fn errors_show_their_names_alone() {
    assert_eq!("BusError", format!("{:?}", Error::BusError("payload")));
    assert_eq!("ChecksumMismatch", format!("{:?}", Error::<u8>::ChecksumMismatch));
    assert_eq!("InvalidThreshold", format!("{:#?}", Error::<u8>::InvalidThreshold));
    assert_eq!("InvalidGainCorrection", format!("{:?}", Error::<u8>::InvalidGainCorrection));
    assert_eq!("Awaiting", format!("{:?}", Error::<u8>::Awaiting));
    assert_eq!("Err(BusError)", format!("{:?}", Err::<(), _>(Error::BusError(7))));
}

#[test]
fn decoded_codes_are_the_codes_of_their_thresholds() {
    let zero_celsius = Binary32::from_bits(DieTemperature::ZERO_CELSIUS_KELVIN);
    for raw in i16::MIN..=i16::MAX {
        let code = |value: Binary32, lsb: u32| quantize_signed_16(value.widen(), Binary32::from_bits(lsb).widen());
        assert_eq!(Some(raw), code(BatteryVoltage::from_raw(raw).decode(), BatteryVoltage::LSB_VOLTS));
        assert_eq!(Some(raw), code(SupplyVoltage::from_raw(raw).decode(), SupplyVoltage::LSB_VOLTS));
        let slot = SlotValue::from_raw(raw);
        assert_eq!(Some(raw), code(slot.decode_voltage(), SlotValue::LSB_VOLTS));
        assert_eq!(Some(raw), code(slot.decode_temperature(), SlotValue::LSB_DEGREES_CELSIUS));
        let celsius = DieTemperature::from_raw(raw).decode_celsius();
        assert_eq!(Some(raw), code(celsius.plus(zero_celsius), DieTemperature::LSB_KELVIN));
    }
}

#[test]
fn internal_clock_covers_a_four_megahertz_crystal() {
    assert_eq!(4e6f64.to_bits(), FOUR_MEGAHERTZ);
    let internal = accumulator_lsbs(AccumulatorClock::Internal).unwrap();
    let crystal = accumulator_lsbs(AccumulatorClock::External {
        frequency_hz: Binary64::from_bits(FOUR_MEGAHERTZ),
        pre: 2,
        div: 30,
    })
    .unwrap();
    for (one, other) in [
        (internal.charge, crystal.charge),
        (internal.energy, crystal.energy),
        (internal.time, crystal.time),
    ] {
        let ratio = f64::from_bits(one.to_bits()) / f64::from_bits(other.to_bits());
        assert!((ratio - 1.0).abs() < 1e-5, "{ratio}");
    }
}
