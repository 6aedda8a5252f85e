//! The register and the bytes of each operation.
use ltc2949::bus::{Action, SpiTranscript};
use ltc2949::client::{
    Client, Error, FastControlRegister, MuxGainSlot, MuxInput, OpsControlRegister, OverCurrentConfig, LTC2949,
};
use ltc2949::dcmd::{build_cmd16, build_read, build_write};
use ltc2949::ltc2949::{Ltc2949Client, Page0Reg, Page1Reg};
use ltc2949::pec15::PEC15;
use ltc2949::polling::NoPolling;
use ltc2949::registers::{RegAddressP0, RegAddressP1};

type Raw = ltc2949::ltc2949::LTC2949<(), NoPolling>;
type Typed = LTC2949<(), NoPolling>;

fn reply(data: &[u8]) -> Vec<u8> {
    let mut bytes = vec![0; 5];
    bytes.extend_from_slice(data);
    bytes.extend_from_slice(&PEC15::calc(data));
    bytes
}

/// A device on PAGE0 that answers one read with `data`.
fn holding(data: &[u8]) -> SpiTranscript<()> {
    let mut transcript = SpiTranscript::new();
    transcript.answer(vec![]);
    transcript.answer(reply(data));
    transcript
}

fn page0_read(addr: u8, n: usize) -> Vec<Action> {
    vec![
        Action::Write(build_write(0xFF, &[0x80])),
        Action::Transfer(build_read(addr, n)),
    ]
}

/// Reads `data` with `operation` and checks what was asked of the bus.
fn typed<T>(addr: u8, data: &[u8], operation: impl Fn(&mut Typed) -> Result<T, Error<()>>) -> T {
    let mut client = LTC2949::new(holding(data));
    let value = operation(&mut client).unwrap_or_else(|_| panic!("the read at {addr:#04X} succeeds"));
    assert_eq!(&page0_read(addr, data.len()), client.link().bus().sent());
    value
}

fn raw<T>(addr: u8, data: &[u8], operation: impl Fn(&mut Raw) -> Result<T, Error<()>>) -> T {
    let mut client = ltc2949::ltc2949::LTC2949::new(holding(data));
    let value = operation(&mut client).unwrap_or_else(|_| panic!("the read at {addr:#04X} succeeds"));
    assert_eq!(&page0_read(addr, data.len()), client.link().bus().sent());
    value
}

#[test]
fn typed_reads_find_their_registers() {
    assert_eq!(-2, typed(0x96, &[0xFF, 0xFF, 0xFE], |c| c.read_current2()).raw());
    assert_eq!(0x7FFFFF, typed(0x90, &[0x7F, 0xFF, 0xFF], |c| c.read_current1()).raw());
    assert_eq!(-0x800000, typed(0x9C, &[0x80, 0, 0], |c| c.read_current1_avg()).raw());
    assert_eq!(-3, typed(0xA8, &[0xFF, 0xFD], |c| c.read_slot2()).raw());
    assert_eq!(
        0x7FFF_FFFF_FFFF,
        typed(0x10, &[0x7F, 0xFF, 0xFF, 0xFF, 0xFF, 0xFF], |c| c.read_charge2()).raw()
    );
    assert_eq!(
        -0x8000_0000_0000,
        typed(0x06, &[0x80, 0, 0, 0, 0, 0], |c| c.read_energy1()).raw()
    );
    assert_eq!(-1, typed(0x16, &[0xFF; 6], |c| c.read_energy2()).raw());
    assert_eq!(
        i64::MIN,
        typed(0x34, &[0x80, 0, 0, 0, 0, 0, 0, 0], |c| c.read_energy4()).raw()
    );
    assert_eq!(u32::MAX, typed(0x1C, &[0xFF; 4], |c| c.read_time2()).raw());
    assert_eq!(1, typed(0x2C, &[0, 0, 0, 1], |c| c.read_time3()).raw());
    assert_eq!(256, typed(0x3C, &[0, 0, 1, 0], |c| c.read_time4()).raw());
}

#[test]
fn alert_reads_find_their_registers() {
    assert_eq!([0xA5], typed(0x81, &[0xA5], |c| c.read_vt_alerts()).into_bytes());
    assert_eq!([0xA5], typed(0x82, &[0xA5], |c| c.read_ip_alerts()).into_bytes());
    assert_eq!([0x25], typed(0x83, &[0x25], |c| c.read_c_alerts()).into_bytes());
    assert_eq!([0x25], typed(0x84, &[0x25], |c| c.read_e_alerts()).into_bytes());
    assert_eq!([0x25], typed(0x85, &[0x25], |c| c.read_ceof_alerts()).into_bytes());
    assert_eq!([0xA5], typed(0x86, &[0xA5], |c| c.read_tb_alerts()).into_bytes());
    assert_eq!([0x05], typed(0x87, &[0x05], |c| c.read_vcc_alerts()).into_bytes());
    assert!(typed(0x81, &[0x01], |c| c.read_vt_alerts()).bath());
    assert!(typed(0x82, &[0x01], |c| c.read_ip_alerts()).i1h());
    assert!(typed(0x86, &[0x01], |c| c.read_tb_alerts()).t1th());
    assert!(typed(0x87, &[0x01], |c| c.read_vcc_alerts()).vcch());
}

#[test]
fn raw_reads_find_their_registers() {
    assert_eq!(-1, raw(0x96, &[0xFF; 3], |c| c.read_current2()));
    assert_eq!(1, raw(0x93, &[0, 0, 1], |c| c.read_power1()));
    assert_eq!(-256, raw(0x99, &[0xFF, 0xFF, 0], |c| c.read_power2()));
    assert_eq!(-1, raw(0xA2, &[0xFF; 2], |c| c.read_temp()));
    assert_eq!(2, raw(0xA4, &[0, 2], |c| c.read_vcc()));
    assert_eq!(3, raw(0xA6, &[0, 3], |c| c.read_slot1()));
    assert_eq!(4, raw(0xA8, &[0, 4], |c| c.read_slot2()));
    assert_eq!(-5, raw(0x10, &[0xFF, 0xFF, 0xFF, 0xFF, 0xFF, 0xFB], |c| c.read_charge2()));
    assert_eq!(6, raw(0x06, &[0, 0, 0, 0, 0, 6], |c| c.read_energy1()));
    assert_eq!(7, raw(0x16, &[0, 0, 0, 0, 0, 7], |c| c.read_energy2()));
    assert_eq!(8, raw(0x34, &[0, 0, 0, 0, 0, 0, 0, 8], |c| c.read_energy4()));
    assert_eq!(9, raw(0x1C, &[0, 0, 0, 9], |c| c.read_time2()));
    assert_eq!(10, raw(0x2C, &[0, 0, 0, 10], |c| c.read_time3()));
    assert_eq!(u32::MAX, raw(0x3C, &[0xFF; 4], |c| c.read_time4()));
}

/// The writes of an operation on a device that takes everything, PAGE selection first.
fn writes(operation: impl Fn(&mut Typed) -> Result<(), Error<()>>) -> Vec<Action> {
    let mut transcript = SpiTranscript::new();
    for _ in 0..4 {
        transcript.answer(vec![]);
    }
    let mut client = LTC2949::new(transcript);
    assert_eq!(Ok(()), operation(&mut client));
    client.link().bus().sent().clone()
}

fn page0_writes(registers: &[(u8, &[u8])]) -> Vec<Action> {
    let mut actions = vec![Action::Write(build_write(0xFF, &[0x80]))];
    for (addr, data) in registers {
        actions.push(Action::Write(build_write(*addr, data)));
    }
    actions
}

#[test]
fn writes_find_their_registers() {
    assert_eq!(page0_writes(&[(0xF2, &[0xC3])]), writes(|c| c.write_gpio_ctrl(0xC3)));
    assert_eq!(page0_writes(&[(0xF1, &[0x5A])]), writes(|c| c.write_gpio5_config(0x5A)));
    assert_eq!(page0_writes(&[(0xF1, &[1])]), writes(|c| c.write_gpio4_hb(true)));
    assert_eq!(page0_writes(&[(0xF1, &[0])]), writes(|c| c.write_gpio4_hb(false)));
    assert_eq!(page0_writes(&[(0xF3, &[5, 6])]), writes(|c| c.write_fast_aux_mux(5, 6)));
    assert_eq!(
        page0_writes(&[(0xF5, &[0x04])]),
        writes(|c| c.write_factrl(FastControlRegister::new().with_fach1(true)))
    );
    assert_eq!(
        page0_writes(&[(0xF0, &[0x20])]),
        writes(|c| c.write_opctrl(OpsControlRegister::new().with_adjupd(true)))
    );
    assert_eq!(page0_writes(&[(0x70, &[0])]), writes(|c| c.confirm_wake_up()));
}

#[test]
fn broadcasts_need_no_page() {
    assert_eq!(
        vec![Action::Write(build_cmd16(0x0260))],
        writes(|c| c.trigger_adcv_broadcast())
    );
    assert_eq!(vec![Action::Write(build_cmd16(0x0460))], writes(|c| c.trigger_adax()));
}

#[test]
fn overcurrent_byte_drops_what_leaves_it() {
    let config = |enable, threshold, deglitch_time, polarity| OverCurrentConfig {
        enable,
        threshold,
        deglitch_time,
        polarity,
    };
    assert_eq!(0, config(false, 0, 0, 0).byte());
    assert_eq!(0b0110_0011, config(true, 0b001, 0b10, 0b01).byte());
    assert_eq!(0b1111_1111, config(true, 7, 3, 3).byte());
    assert_eq!(0b1111_1110, config(false, 0xFF, 0, 0).byte());
    assert_eq!(0b1100_0000, config(false, 0, 0, 0xFF).byte());
}

#[test]
fn mux_gain_is_checked_before_anything_is_sent() {
    let mut client: Typed = LTC2949::new(SpiTranscript::new());
    let zero = ltc2949::binary::Binary32::from_bits(0);
    assert_eq!(
        Err(Error::InvalidGainCorrection),
        client.write_mux_gain_correction(MuxGainSlot::Two, zero, MuxInput::Agnd, MuxInput::V1)
    );
    assert!(client.link().bus().sent().is_empty());
}

#[test]
fn both_register_maps_agree() {
    assert_eq!(RegAddressP0::Faults.addr(), Page0Reg::Faults.addr());
    assert_eq!(RegAddressP0::Energy4.addr(), Page0Reg::Energy4.addr());
    assert_eq!(RegAddressP0::FifoAux.addr(), Page0Reg::FifoAux.addr());
    assert_eq!(RegAddressP1::AdcConf.addr(), Page1Reg::AdcConf.addr());
    assert_eq!(0xFF, RegAddressP0::RegsCtrl.addr());
}
