//! The example device behind a client, and the example delay.
use ltc2949::binary::{Binary32, Binary64};
use ltc2949::bus::{Action, SpiTranscript};
use ltc2949::client::{
    AccumulatorClock, AdcConfiguration, Channel, ChargeAccumulator, Client, Error, FastControlRegister, FifoSample,
    FifoTag, MuxInput, NtcConfig, OpsControlRegister, OverCurrentConfig, ShuntTcConfig, LTC2949, T_BOOT_US, T_MLCK_US,
    T_READY_US,
};
use ltc2949::dcmd::{build_read, build_write};
use ltc2949::example::{ExampleDelay, ExampleSPIDevice};
use ltc2949::pec15::PEC15;
use ltc2949::polling::NoPolling;

type Meter = LTC2949<(), NoPolling>;

fn meter() -> Meter {
    LTC2949::new(SpiTranscript::new())
}

/// Runs an operation against the example device, one reply at a time.
fn run<T>(meter: &mut Meter, operation: impl Fn(&mut Meter) -> Result<T, Error<()>>) -> T {
    let device = ExampleSPIDevice::default();
    let page = meter.link().current_page();
    loop {
        match operation(meter) {
            Err(Error::Awaiting) => {
                let reply = device.transaction(meter.link().bus().awaiting().unwrap());
                meter.link_mut().answer(reply);
                meter.link_mut().rewind(page);
            }
            Ok(value) => {
                meter.link_mut().clear();
                return value;
            }
            Err(_) => panic!("the example device does not fail"),
        }
    }
}

fn b32(value: f32) -> Binary32 {
    Binary32::from_bits(value.to_bits())
}

fn b64(value: f64) -> Binary64 {
    Binary64::from_bits(value.to_bits())
}

fn f32_of(value: Binary32) -> f32 {
    f32::from_bits(value.to_bits())
}

fn f64_of(value: Binary64) -> f64 {
    f64::from_bits(value.to_bits())
}

#[test]
fn waits_are_owned_by_the_host() {
    let mut delay = ExampleDelay::default();
    let mut meter = meter();

    let ready_us = run(&mut meter, |m| m.wake_isospi());
    assert_eq!(T_READY_US, ready_us);
    delay.delay_us(ready_us);

    let boot_us = run(&mut meter, |m| m.start_wake_up());
    assert_eq!(T_BOOT_US, boot_us);
    delay.delay_us(boot_us);
    run(&mut meter, |m| m.confirm_wake_up());

    let lock_us = run(&mut meter, |m| m.request_memory_lock());
    assert_eq!(T_MLCK_US, lock_us);
    delay.delay_us(lock_us);
    assert_eq!(10_000_000, run(&mut meter, |m| m.read_charge1()).raw());
    run(&mut meter, |m| m.unlock_memory());

    assert_eq!(
        u64::from(T_READY_US) + u64::from(T_BOOT_US) + u64::from(T_MLCK_US),
        delay.elapsed_us()
    );
}

#[test]
fn configuration_writes_are_taken() {
    let mut meter = meter();
    let fast_channels = FastControlRegister::default()
        .with_faconv(true)
        .with_fach1(true)
        .with_fach2(true);
    run(&mut meter, |m| m.write_factrl(fast_channels));
    let adc_configuration = AdcConfiguration::default().with_p1asv(true).with_ntc1(true);
    run(&mut meter, |m| m.write_adcconf(adc_configuration));
    run(&mut meter, |m| {
        m.write_opctrl(OpsControlRegister::default().with_adjupd(true))
    });
    let ntc = NtcConfig {
        r_ref: b32(10_000.0),
        a: b32(1.1382e-3),
        b: b32(2.3267e-4),
        c: b32(0.93243e-7),
    };
    run(&mut meter, |m| m.write_ntc_coefficients(Channel::One, &ntc));
    let copper_shunt = ShuntTcConfig {
        tc: b32(0.0039),
        t_ref: b32(25.0),
        tc2: b32(0.0),
    };
    run(&mut meter, |m| m.write_shunt_tc(Channel::One, &copper_shunt));
    run(&mut meter, |m| {
        m.write_slot_mux(Channel::One, MuxInput::Agnd, MuxInput::V1)
    });
    run(&mut meter, |m| m.write_gpio_ctrl(0b00_00_00_11));
    let positive_limit = OverCurrentConfig {
        enable: true,
        threshold: 0b001,
        deglitch_time: 0b10,
        polarity: 0b01,
    };
    let negative_limit = OverCurrentConfig {
        enable: true,
        threshold: 0b010,
        deglitch_time: 0b01,
        polarity: 0b10,
    };
    run(&mut meter, |m| m.write_occ_config(positive_limit, negative_limit));
    run(&mut meter, |m| m.trigger_adax());
}

#[test]
fn thresholds_are_taken() {
    let mut meter = meter();
    let shunt_ohms = 100e-6;
    run(&mut meter, |m| {
        m.write_current_thresholds(Channel::One, b32(-100.0), b32(100.0), b32(shunt_ohms))
    });
    run(&mut meter, |m| m.write_battery_thresholds(b32(0.0), b32(10.0)));
    run(&mut meter, |m| {
        m.write_charge_thresholds(
            ChargeAccumulator::Charge1,
            b64(-100.0),
            b64(100.0),
            b64(shunt_ohms as f64),
            AccumulatorClock::Internal,
        )
    });
}

#[test]
fn status_is_nominal() {
    let mut meter = meter();
    let status = run(&mut meter, |m| m.read_status());
    assert!(!status.adcerr());
    assert!(!status.tberr());
    assert!(status.update());
    let faults = run(&mut meter, |m| m.read_faults());
    assert!(!faults.crccfg() && !faults.crcmem());
    assert!(!faults.hwbist());
    let vt_alerts = run(&mut meter, |m| m.read_vt_alerts());
    assert!(!vt_alerts.bath());
    assert!(!vt_alerts.temph());
    assert!(!vt_alerts.slot1h());
}

#[test]
fn measurements_are_nominal() {
    let mut meter = meter();
    let shunt_ohms = 100e-6_f32;
    let amperes = |volts: Binary32| f32_of(volts) / shunt_ohms;
    assert!((amperes(run(&mut meter, |m| m.read_current1()).decode()) - 9.5).abs() < 0.001);
    assert!((amperes(run(&mut meter, |m| m.read_current2()).decode()) + 4.75).abs() < 0.001);
    assert!((amperes(run(&mut meter, |m| m.read_current1_avg()).decode()) - 9.5).abs() < 0.001);
    assert!((amperes(run(&mut meter, |m| m.read_current2_avg()).decode()) + 4.75).abs() < 0.001);

    let power1_watts = f32_of(run(&mut meter, |m| m.read_power1()).decode_power(b32(shunt_ohms)));
    let power2_watts = f32_of(run(&mut meter, |m| m.read_power2()).decode_power(b32(shunt_ohms)));
    assert!((power1_watts - 0.058_368).abs() < 0.000_001);
    assert!((power2_watts + 0.029_184).abs() < 0.000_001);
    let battery = run(&mut meter, |m| m.read_bat());
    assert_eq!(12_345, battery.raw());
    assert_eq!(4_629_375, (f32_of(battery.decode()) * 1_000_000.0) as i32);

    let temperature_celsius = f32_of(run(&mut meter, |m| m.read_temp()).decode_celsius());
    let vcc_volts = f32_of(run(&mut meter, |m| m.read_vcc()).decode());
    assert!((temperature_celsius - 25.05).abs() < 0.01);
    assert!((vcc_volts - 3.2996).abs() < 0.0001);
    let slot1_celsius = f32_of(run(&mut meter, |m| m.read_slot1()).decode_temperature());
    assert!((slot1_celsius - 25.0).abs() < 0.001);
}

#[test]
fn accumulators_are_nominal() {
    let mut meter = meter();
    let shunt_ohms = b64(100e-6);
    let channel1_coulombs = f64_of(run(&mut meter, |m| m.read_charge1()).decode_coulombs(shunt_ohms));
    let channel2_coulombs = f64_of(run(&mut meter, |m| m.read_charge2()).decode_coulombs(shunt_ohms));
    let weighted_coulombs = f64_of(run(&mut meter, |m| m.read_charge3()).decode_coulombs(shunt_ohms));
    assert!((channel1_coulombs - 37.7887).abs() < 0.0001);
    assert!((channel2_coulombs + 22.67322).abs() < 0.0001);
    assert!((weighted_coulombs - 15.11548).abs() < 0.0001);

    assert!((f64_of(run(&mut meter, |m| m.read_time1()).decode()) - 3.97777).abs() < 0.00001);
    assert!((f64_of(run(&mut meter, |m| m.read_time2()).decode()) - 4.773324).abs() < 0.00001);
    assert!((f64_of(run(&mut meter, |m| m.read_time3()).decode()) - 5.966655).abs() < 0.00001);
    assert!((f64_of(run(&mut meter, |m| m.read_time4()).decode()) - 7.95554).abs() < 0.00001);

    let channel1 = run(&mut meter, |m| m.read_accumulators1());
    let channel2 = run(&mut meter, |m| m.read_accumulators2());
    assert_eq!(
        (10_000_000, 10_000, 10_000),
        (channel1.charge.raw(), channel1.energy.raw(), channel1.time.raw())
    );
    assert_eq!(
        (-6_000_000, -6_000, 12_000),
        (channel2.charge.raw(), channel2.energy.raw(), channel2.time.raw())
    );
    assert_eq!(10_000, run(&mut meter, |m| m.read_energy1()).raw());
    assert_eq!(-6_000, run(&mut meter, |m| m.read_energy2()).raw());
    assert_eq!(0, run(&mut meter, |m| m.read_energy4()).raw());
}

#[test]
fn fifo_holds_one_sample() {
    let mut meter = meter();
    let samples = run(&mut meter, |m| m.read_fifo_i1::<5>());
    assert_eq!(
        &[
            FifoSample {
                raw: 256,
                tag: FifoTag::Valid
            },
            FifoSample {
                raw: 0,
                tag: FifoTag::from_byte(0x80)
            },
        ],
        samples.as_slice()
    );
    assert_eq!(1, run(&mut meter, |m| m.read_fifo_i1::<1>()).len());
}

#[test]
fn device_answers_reads_alone() {
    let device = ExampleSPIDevice::default();
    let data = [0x30, 0x39];
    let mut expected = vec![0; 5];
    expected.extend_from_slice(&data);
    expected.extend_from_slice(&PEC15::calc(&data));
    assert_eq!(expected, device.transaction(&Action::Transfer(build_read(0xA0, 2))));
    assert_eq!(vec![0; 4], device.transaction(&Action::Transfer(vec![1, 2, 3, 4])));
    assert!(device.transaction(&Action::Write(build_write(0xF0, &[8]))).is_empty());

    let mut longer = vec![0xFF; 12];
    ExampleSPIDevice::transfer(&mut longer, &build_read(0xA0, 2));
    assert_eq!(expected, longer[..9].to_vec());
    assert_eq!(vec![0; 3], longer[9..].to_vec());
    let mut untouched = vec![0xFF; 3];
    ExampleSPIDevice::transfer(&mut untouched, &[0x02, 0x60, 0x39, 0xE4]);
    assert_eq!(vec![0xFF; 3], untouched);
}

#[test]
fn delay_counts_microseconds() {
    let mut delay = ExampleDelay::default();
    delay.delay_ns(1);
    assert_eq!(1, delay.elapsed_us());
    delay.delay_ns(1000);
    assert_eq!(2, delay.elapsed_us());
    delay.delay_ns(1001);
    assert_eq!(4, delay.elapsed_us());
    delay.delay_us(6);
    delay.delay_ms(3);
    assert_eq!(3010, delay.elapsed_us());
}
