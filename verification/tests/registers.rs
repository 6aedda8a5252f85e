//! Bit positions of the registers.
use ltc2949::client::{
    AdcConfiguration, CAlerts, CEOFAlerts, EAlerts, ExtFaultsRegister, FastControlRegister, FaultsRegister, IPAlerts,
    OpsControlRegister, StatusRegister, TBAlerts, VCCAlerts, VTAlerts,
};
use ltc2949::ltc2949::RegsCtrl;

#[test]
fn control_bits() {
    assert_eq!([0x01], OpsControlRegister::new().with_sleep(true).into_bytes());
    assert_eq!([0x02], OpsControlRegister::new().with_clr(true).into_bytes());
    assert_eq!([0x04], OpsControlRegister::new().with_sshot(true).into_bytes());
    assert_eq!([0x08], OpsControlRegister::new().with_cont(true).into_bytes());
    assert_eq!([0x20], OpsControlRegister::new().with_adjupd(true).into_bytes());
    assert_eq!([0x80], OpsControlRegister::new().with_rst(true).into_bytes());
    assert_eq!([0x01], FastControlRegister::new().with_faconv(true).into_bytes());
    assert_eq!([0x02], FastControlRegister::new().with_facha(true).into_bytes());
    assert_eq!([0x01], AdcConfiguration::new().with_p1asv(true).into_bytes());
}

#[test]
fn setting_a_bit_keeps_the_others() {
    let all = FaultsRegister::from_bytes([0xFF]);
    assert_eq!([0xFE], all.with_promerr(false).into_bytes());
    assert_eq!([0x7F], all.with_crcmem(false).into_bytes());
    assert_eq!([0xFF], all.with_tsd(true).into_bytes());
    let none = FaultsRegister::new();
    assert_eq!([0x20], none.with_hwbist(true).into_bytes());
    assert!(none.with_hwbist(true).hwbist());
    assert!(!none.with_hwbist(true).with_hwbist(false).hwbist());
}

#[test]
fn memory_lock_field_takes_two_bits() {
    for value in 0..4u8 {
        let register = RegsCtrl::new().with_rdcvconf(true).with_mlk(value);
        assert_eq!(value, register.mlk());
        assert_eq!([0x80 | value << 4], register.into_bytes());
        assert_eq!([0x81 | value << 4], register.with_page(true).into_bytes());
    }
    assert_eq!(2, RegsCtrl::from_bytes([0xEF]).mlk());
}

#[test]
fn every_byte_is_kept() {
    for byte in 0..=255u8 {
        assert_eq!([byte], StatusRegister::from_bytes([byte]).into_bytes());
        assert_eq!([byte], VTAlerts::from_bytes([byte]).into_bytes());
        assert_eq!([byte], ExtFaultsRegister::from_bytes([byte]).into_bytes());
        assert_eq!([byte], RegsCtrl::from_bytes([byte]).into_bytes());
    }
}

#[test]
fn each_flag_reads_one_bit() {
    let vt = [0x01u8, 0x02, 0x04, 0x08, 0x10, 0x20, 0x40, 0x80].map(|byte| {
        let r = VTAlerts::from_bytes([byte]);
        [
            r.bath(),
            r.batl(),
            r.temph(),
            r.templ(),
            r.slot1h(),
            r.slot1l(),
            r.slot2h(),
            r.slot2l(),
        ]
    });
    for (bit, flags) in vt.iter().enumerate() {
        for (position, flag) in flags.iter().enumerate() {
            assert_eq!(bit == position, *flag);
        }
    }
    assert!(IPAlerts::from_bytes([0x80]).p2l());
    assert!(CAlerts::from_bytes([0x20]).c3l());
    assert!(EAlerts::from_bytes([0x80]).e4l());
    assert!(CEOFAlerts::from_bytes([0x80]).e4ovf());
    assert!(TBAlerts::from_bytes([0x80]).t4ovf());
    assert!(VCCAlerts::from_bytes([0x08]).occ2h());
    assert!(ExtFaultsRegister::from_bytes([0x01]).hd1biterr());
    assert!(StatusRegister::from_bytes([0x10]).update());
}

#[test]
fn defaults_are_clear() {
    assert_eq!([0], OpsControlRegister::default().into_bytes());
    assert_eq!([0], FastControlRegister::default().into_bytes());
    assert_eq!([0], AdcConfiguration::default().into_bytes());
}
