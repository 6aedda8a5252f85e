//! Memory pages, register addresses and the bit layout of the byte-wide registers.
use vstd::prelude::*;

verus! {

/// Memory page selector. PAGE0 holds measurement results, status and control;
/// PAGE1 holds thresholds and configuration. Selected via the [`RegControlRegister`] register.
#[derive(Copy, Clone, Eq, PartialEq, Structural, Debug)]
pub enum Page {
    Page0,
    Page1,
}

/// Page-0 register addresses: results, accumulators, status and control/fast-mode
/// registers (datasheet Tables 24, 26-28, 57-64).
#[derive(Copy, Clone, Eq, PartialEq, Structural, Debug)]
pub enum RegAddressP0 {
    Charge1,
    Energy1,
    Time1,
    Charge2,
    Energy2,
    Time2,
    Charge3,
    Time3,
    Energy4,
    Time4,
    WkupAck,
    Status,
    StatVT,
    StatIP,
    StatC,
    StatE,
    StatCEOF,
    StatTB,
    StatVCC,
    Current1,
    Power1,
    Current2,
    Power2,
    Current1Avg,
    Bat,
    Temp,
    Vcc,
    Slot1,
    Slot2,
    Vref,
    Current2Avg,
    Slot1MuxN,
    Slot1MuxP,
    Slot2MuxN,
    Slot2MuxP,
    ExtFaults,
    Occ1Ctrl,
    Occ2Ctrl,
    Faults,
    OpCtrl,
    FCurGpioCtrl,
    FGpioCtrl,
    FaMuxN,
    FaMuxP,
    FaCtrl,
    FifoI1,
    FifoI2,
    FifoBat,
    FifoAux,
    RdcvIAddr,
    RegsCtrl,
}

impl RegAddressP0 {
    /// The on-bus `RADDR` byte of the register.
    pub open spec fn spec_addr(self) -> u8 {
        match self {
            RegAddressP0::Charge1 => 0x00,
            RegAddressP0::Energy1 => 0x06,
            RegAddressP0::Time1 => 0x0C,
            RegAddressP0::Charge2 => 0x10,
            RegAddressP0::Energy2 => 0x16,
            RegAddressP0::Time2 => 0x1C,
            RegAddressP0::Charge3 => 0x24,
            RegAddressP0::Time3 => 0x2C,
            RegAddressP0::Energy4 => 0x34,
            RegAddressP0::Time4 => 0x3C,
            RegAddressP0::WkupAck => 0x70,
            RegAddressP0::Status => 0x80,
            RegAddressP0::StatVT => 0x81,
            RegAddressP0::StatIP => 0x82,
            RegAddressP0::StatC => 0x83,
            RegAddressP0::StatE => 0x84,
            RegAddressP0::StatCEOF => 0x85,
            RegAddressP0::StatTB => 0x86,
            RegAddressP0::StatVCC => 0x87,
            RegAddressP0::Current1 => 0x90,
            RegAddressP0::Power1 => 0x93,
            RegAddressP0::Current2 => 0x96,
            RegAddressP0::Power2 => 0x99,
            RegAddressP0::Current1Avg => 0x9C,
            RegAddressP0::Bat => 0xA0,
            RegAddressP0::Temp => 0xA2,
            RegAddressP0::Vcc => 0xA4,
            RegAddressP0::Slot1 => 0xA6,
            RegAddressP0::Slot2 => 0xA8,
            RegAddressP0::Vref => 0xAA,
            RegAddressP0::Current2Avg => 0xAC,
            RegAddressP0::Slot1MuxN => 0xEB,
            RegAddressP0::Slot1MuxP => 0xEC,
            RegAddressP0::Slot2MuxN => 0xED,
            RegAddressP0::Slot2MuxP => 0xEE,
            RegAddressP0::ExtFaults => 0xDC,
            RegAddressP0::Occ1Ctrl => 0xDE,
            RegAddressP0::Occ2Ctrl => 0xDF,
            RegAddressP0::Faults => 0xDD,
            RegAddressP0::OpCtrl => 0xF0,
            RegAddressP0::FCurGpioCtrl => 0xF1,
            RegAddressP0::FGpioCtrl => 0xF2,
            RegAddressP0::FaMuxN => 0xF3,
            RegAddressP0::FaMuxP => 0xF4,
            RegAddressP0::FaCtrl => 0xF5,
            RegAddressP0::FifoI1 => 0xF7,
            RegAddressP0::FifoI2 => 0xF8,
            RegAddressP0::FifoBat => 0xF9,
            RegAddressP0::FifoAux => 0xFA,
            RegAddressP0::RdcvIAddr => 0xFC,
            RegAddressP0::RegsCtrl => 0xFF,
        }
    }

    /// Returns the on-bus `RADDR` byte of the register.
    #[verifier::when_used_as_spec(spec_addr)]
    pub fn addr(self) -> (addr: u8)
        ensures
            addr == self.spec_addr(),
    {
        match self {
            RegAddressP0::Charge1 => 0x00,
            RegAddressP0::Energy1 => 0x06,
            RegAddressP0::Time1 => 0x0C,
            RegAddressP0::Charge2 => 0x10,
            RegAddressP0::Energy2 => 0x16,
            RegAddressP0::Time2 => 0x1C,
            RegAddressP0::Charge3 => 0x24,
            RegAddressP0::Time3 => 0x2C,
            RegAddressP0::Energy4 => 0x34,
            RegAddressP0::Time4 => 0x3C,
            RegAddressP0::WkupAck => 0x70,
            RegAddressP0::Status => 0x80,
            RegAddressP0::StatVT => 0x81,
            RegAddressP0::StatIP => 0x82,
            RegAddressP0::StatC => 0x83,
            RegAddressP0::StatE => 0x84,
            RegAddressP0::StatCEOF => 0x85,
            RegAddressP0::StatTB => 0x86,
            RegAddressP0::StatVCC => 0x87,
            RegAddressP0::Current1 => 0x90,
            RegAddressP0::Power1 => 0x93,
            RegAddressP0::Current2 => 0x96,
            RegAddressP0::Power2 => 0x99,
            RegAddressP0::Current1Avg => 0x9C,
            RegAddressP0::Bat => 0xA0,
            RegAddressP0::Temp => 0xA2,
            RegAddressP0::Vcc => 0xA4,
            RegAddressP0::Slot1 => 0xA6,
            RegAddressP0::Slot2 => 0xA8,
            RegAddressP0::Vref => 0xAA,
            RegAddressP0::Current2Avg => 0xAC,
            RegAddressP0::Slot1MuxN => 0xEB,
            RegAddressP0::Slot1MuxP => 0xEC,
            RegAddressP0::Slot2MuxN => 0xED,
            RegAddressP0::Slot2MuxP => 0xEE,
            RegAddressP0::ExtFaults => 0xDC,
            RegAddressP0::Occ1Ctrl => 0xDE,
            RegAddressP0::Occ2Ctrl => 0xDF,
            RegAddressP0::Faults => 0xDD,
            RegAddressP0::OpCtrl => 0xF0,
            RegAddressP0::FCurGpioCtrl => 0xF1,
            RegAddressP0::FGpioCtrl => 0xF2,
            RegAddressP0::FaMuxN => 0xF3,
            RegAddressP0::FaMuxP => 0xF4,
            RegAddressP0::FaCtrl => 0xF5,
            RegAddressP0::FifoI1 => 0xF7,
            RegAddressP0::FifoI2 => 0xF8,
            RegAddressP0::FifoBat => 0xF9,
            RegAddressP0::FifoAux => 0xFA,
            RegAddressP0::RdcvIAddr => 0xFC,
            RegAddressP0::RegsCtrl => 0xFF,
        }
    }
}

/// Page-1 register addresses: thresholds, gain correction, ADC config, NTC-linearisation,
/// and sense-resistor TC coefficient blocks (datasheet Tables 67, 69, 71, 72, 76).
#[derive(Copy, Clone, Eq, PartialEq, Structural, Debug)]
pub enum RegAddressP1 {
    C1Th,
    C1Tl,
    Tb1Th,
    E1Th,
    E1Tl,
    C2Th,
    C2Tl,
    Tb2Th,
    E2Th,
    E2Tl,
    C3Th,
    Tb3Th,
    C3Tl,
    E4Th,
    Tb4Th,
    E4Tl,
    I1Th,
    I1Tl,
    P1Th,
    P1Tl,
    I2Th,
    I2Tl,
    P2Th,
    P2Tl,
    BatTh,
    BatTl,
    TempTh,
    TempTl,
    VccTh,
    VccTl,
    Slot1Th,
    Slot1Tl,
    Slot2Th,
    Slot2Tl,
    Rs1Tc2,
    Rs2Tc2,
    Rref1,
    Rref2,
    Ntc1A,
    Ntc1B,
    Ntc1C,
    Rs1Tc,
    Rs1T0,
    AdcConf,
    Ntc2A,
    Ntc2B,
    Ntc2C,
    Rs2Tc,
    Rs2T0,
    Rs1Gc,
    Rs2Gc,
    RsRatio,
    BatGc,
    Mux1Gc,
    Mux2Gc,
    Mux3Gc,
    Mux4Gc,
    MuxNset1,
    MuxPset1,
    MuxNset2,
    MuxPset2,
    MuxNset3,
    MuxPset3,
    MuxNset4,
    MuxPset4,
}

impl RegAddressP1 {
    /// The on-bus `RADDR` byte of the register.
    pub open spec fn spec_addr(self) -> u8 {
        match self {
            RegAddressP1::C1Th => 0x00,
            RegAddressP1::C1Tl => 0x06,
            RegAddressP1::Tb1Th => 0x0C,
            RegAddressP1::E1Th => 0x10,
            RegAddressP1::E1Tl => 0x16,
            RegAddressP1::C2Th => 0x20,
            RegAddressP1::C2Tl => 0x26,
            RegAddressP1::Tb2Th => 0x2C,
            RegAddressP1::E2Th => 0x30,
            RegAddressP1::E2Tl => 0x36,
            RegAddressP1::C3Th => 0x44,
            RegAddressP1::Tb3Th => 0x4C,
            RegAddressP1::C3Tl => 0x54,
            RegAddressP1::E4Th => 0x64,
            RegAddressP1::Tb4Th => 0x6C,
            RegAddressP1::E4Tl => 0x74,
            RegAddressP1::I1Th => 0x80,
            RegAddressP1::I1Tl => 0x82,
            RegAddressP1::P1Th => 0x84,
            RegAddressP1::P1Tl => 0x86,
            RegAddressP1::I2Th => 0x88,
            RegAddressP1::I2Tl => 0x8A,
            RegAddressP1::P2Th => 0x8C,
            RegAddressP1::P2Tl => 0x8E,
            RegAddressP1::BatTh => 0x90,
            RegAddressP1::BatTl => 0x92,
            RegAddressP1::TempTh => 0x94,
            RegAddressP1::TempTl => 0x96,
            RegAddressP1::VccTh => 0x98,
            RegAddressP1::VccTl => 0x9A,
            RegAddressP1::Slot1Th => 0xA0,
            RegAddressP1::Slot1Tl => 0xA2,
            RegAddressP1::Slot2Th => 0xA4,
            RegAddressP1::Slot2Tl => 0xA6,
            RegAddressP1::Rs1Tc2 => 0x5C,
            RegAddressP1::Rs2Tc2 => 0x7C,
            RegAddressP1::Rref1 => 0xAA,
            RegAddressP1::Rref2 => 0xAD,
            RegAddressP1::Ntc1A => 0xD0,
            RegAddressP1::Ntc1B => 0xD3,
            RegAddressP1::Ntc1C => 0xD6,
            RegAddressP1::Rs1Tc => 0xD9,
            RegAddressP1::Rs1T0 => 0xDC,
            RegAddressP1::AdcConf => 0xDF,
            RegAddressP1::Ntc2A => 0xE0,
            RegAddressP1::Ntc2B => 0xE3,
            RegAddressP1::Ntc2C => 0xE6,
            RegAddressP1::Rs2Tc => 0xE9,
            RegAddressP1::Rs2T0 => 0xEC,
            RegAddressP1::Rs1Gc => 0xB0,
            RegAddressP1::Rs2Gc => 0xB3,
            RegAddressP1::RsRatio => 0xB6,
            RegAddressP1::BatGc => 0xB9,
            RegAddressP1::Mux1Gc => 0xC0,
            RegAddressP1::Mux2Gc => 0xC3,
            RegAddressP1::Mux3Gc => 0xC6,
            RegAddressP1::Mux4Gc => 0xC9,
            RegAddressP1::MuxNset1 => 0xBC,
            RegAddressP1::MuxPset1 => 0xBD,
            RegAddressP1::MuxNset2 => 0xBE,
            RegAddressP1::MuxPset2 => 0xBF,
            RegAddressP1::MuxNset3 => 0xCC,
            RegAddressP1::MuxPset3 => 0xCD,
            RegAddressP1::MuxNset4 => 0xCE,
            RegAddressP1::MuxPset4 => 0xCF,
        }
    }

    /// Returns the on-bus `RADDR` byte of the register.
    #[verifier::when_used_as_spec(spec_addr)]
    pub fn addr(self) -> (addr: u8)
        ensures
            addr == self.spec_addr(),
    {
        match self {
            RegAddressP1::C1Th => 0x00,
            RegAddressP1::C1Tl => 0x06,
            RegAddressP1::Tb1Th => 0x0C,
            RegAddressP1::E1Th => 0x10,
            RegAddressP1::E1Tl => 0x16,
            RegAddressP1::C2Th => 0x20,
            RegAddressP1::C2Tl => 0x26,
            RegAddressP1::Tb2Th => 0x2C,
            RegAddressP1::E2Th => 0x30,
            RegAddressP1::E2Tl => 0x36,
            RegAddressP1::C3Th => 0x44,
            RegAddressP1::Tb3Th => 0x4C,
            RegAddressP1::C3Tl => 0x54,
            RegAddressP1::E4Th => 0x64,
            RegAddressP1::Tb4Th => 0x6C,
            RegAddressP1::E4Tl => 0x74,
            RegAddressP1::I1Th => 0x80,
            RegAddressP1::I1Tl => 0x82,
            RegAddressP1::P1Th => 0x84,
            RegAddressP1::P1Tl => 0x86,
            RegAddressP1::I2Th => 0x88,
            RegAddressP1::I2Tl => 0x8A,
            RegAddressP1::P2Th => 0x8C,
            RegAddressP1::P2Tl => 0x8E,
            RegAddressP1::BatTh => 0x90,
            RegAddressP1::BatTl => 0x92,
            RegAddressP1::TempTh => 0x94,
            RegAddressP1::TempTl => 0x96,
            RegAddressP1::VccTh => 0x98,
            RegAddressP1::VccTl => 0x9A,
            RegAddressP1::Slot1Th => 0xA0,
            RegAddressP1::Slot1Tl => 0xA2,
            RegAddressP1::Slot2Th => 0xA4,
            RegAddressP1::Slot2Tl => 0xA6,
            RegAddressP1::Rs1Tc2 => 0x5C,
            RegAddressP1::Rs2Tc2 => 0x7C,
            RegAddressP1::Rref1 => 0xAA,
            RegAddressP1::Rref2 => 0xAD,
            RegAddressP1::Ntc1A => 0xD0,
            RegAddressP1::Ntc1B => 0xD3,
            RegAddressP1::Ntc1C => 0xD6,
            RegAddressP1::Rs1Tc => 0xD9,
            RegAddressP1::Rs1T0 => 0xDC,
            RegAddressP1::AdcConf => 0xDF,
            RegAddressP1::Ntc2A => 0xE0,
            RegAddressP1::Ntc2B => 0xE3,
            RegAddressP1::Ntc2C => 0xE6,
            RegAddressP1::Rs2Tc => 0xE9,
            RegAddressP1::Rs2T0 => 0xEC,
            RegAddressP1::Rs1Gc => 0xB0,
            RegAddressP1::Rs2Gc => 0xB3,
            RegAddressP1::RsRatio => 0xB6,
            RegAddressP1::BatGc => 0xB9,
            RegAddressP1::Mux1Gc => 0xC0,
            RegAddressP1::Mux2Gc => 0xC3,
            RegAddressP1::Mux3Gc => 0xC6,
            RegAddressP1::Mux4Gc => 0xC9,
            RegAddressP1::MuxNset1 => 0xBC,
            RegAddressP1::MuxPset1 => 0xBD,
            RegAddressP1::MuxNset2 => 0xBE,
            RegAddressP1::MuxPset2 => 0xBF,
            RegAddressP1::MuxNset3 => 0xCC,
            RegAddressP1::MuxPset3 => 0xCD,
            RegAddressP1::MuxNset4 => 0xCE,
            RegAddressP1::MuxPset4 => 0xCF,
        }
    }
}

/// Two registers of PAGE0 with the same address are the same register.
pub proof fn page0_addresses_are_distinct(first: RegAddressP0, second: RegAddressP0)
    requires
        first.addr() == second.addr(),
    ensures
        first == second,
{
}

/// Two registers of PAGE1 with the same address are the same register.
pub proof fn page1_addresses_are_distinct(first: RegAddressP1, second: RegAddressP1)
    requires
        first.addr() == second.addr(),
    ensures
        first == second,
{
}

/// The register of PAGE0 that starts at an address, in the order of the addresses.
pub open spec fn page0_register_at(addr: u8) -> Option<RegAddressP0> {
    if addr == 0x00 {
        Some(RegAddressP0::Charge1)
    } else if addr == 0x06 {
        Some(RegAddressP0::Energy1)
    } else if addr == 0x0C {
        Some(RegAddressP0::Time1)
    } else if addr == 0x10 {
        Some(RegAddressP0::Charge2)
    } else if addr == 0x16 {
        Some(RegAddressP0::Energy2)
    } else if addr == 0x1C {
        Some(RegAddressP0::Time2)
    } else if addr == 0x24 {
        Some(RegAddressP0::Charge3)
    } else if addr == 0x2C {
        Some(RegAddressP0::Time3)
    } else if addr == 0x34 {
        Some(RegAddressP0::Energy4)
    } else if addr == 0x3C {
        Some(RegAddressP0::Time4)
    } else if addr == 0x70 {
        Some(RegAddressP0::WkupAck)
    } else if addr == 0x80 {
        Some(RegAddressP0::Status)
    } else if addr == 0x81 {
        Some(RegAddressP0::StatVT)
    } else if addr == 0x82 {
        Some(RegAddressP0::StatIP)
    } else if addr == 0x83 {
        Some(RegAddressP0::StatC)
    } else if addr == 0x84 {
        Some(RegAddressP0::StatE)
    } else if addr == 0x85 {
        Some(RegAddressP0::StatCEOF)
    } else if addr == 0x86 {
        Some(RegAddressP0::StatTB)
    } else if addr == 0x87 {
        Some(RegAddressP0::StatVCC)
    } else if addr == 0x90 {
        Some(RegAddressP0::Current1)
    } else if addr == 0x93 {
        Some(RegAddressP0::Power1)
    } else if addr == 0x96 {
        Some(RegAddressP0::Current2)
    } else if addr == 0x99 {
        Some(RegAddressP0::Power2)
    } else if addr == 0x9C {
        Some(RegAddressP0::Current1Avg)
    } else if addr == 0xA0 {
        Some(RegAddressP0::Bat)
    } else if addr == 0xA2 {
        Some(RegAddressP0::Temp)
    } else if addr == 0xA4 {
        Some(RegAddressP0::Vcc)
    } else if addr == 0xA6 {
        Some(RegAddressP0::Slot1)
    } else if addr == 0xA8 {
        Some(RegAddressP0::Slot2)
    } else if addr == 0xAA {
        Some(RegAddressP0::Vref)
    } else if addr == 0xAC {
        Some(RegAddressP0::Current2Avg)
    } else if addr == 0xDC {
        Some(RegAddressP0::ExtFaults)
    } else if addr == 0xDD {
        Some(RegAddressP0::Faults)
    } else if addr == 0xDE {
        Some(RegAddressP0::Occ1Ctrl)
    } else if addr == 0xDF {
        Some(RegAddressP0::Occ2Ctrl)
    } else if addr == 0xEB {
        Some(RegAddressP0::Slot1MuxN)
    } else if addr == 0xEC {
        Some(RegAddressP0::Slot1MuxP)
    } else if addr == 0xED {
        Some(RegAddressP0::Slot2MuxN)
    } else if addr == 0xEE {
        Some(RegAddressP0::Slot2MuxP)
    } else if addr == 0xF0 {
        Some(RegAddressP0::OpCtrl)
    } else if addr == 0xF1 {
        Some(RegAddressP0::FCurGpioCtrl)
    } else if addr == 0xF2 {
        Some(RegAddressP0::FGpioCtrl)
    } else if addr == 0xF3 {
        Some(RegAddressP0::FaMuxN)
    } else if addr == 0xF4 {
        Some(RegAddressP0::FaMuxP)
    } else if addr == 0xF5 {
        Some(RegAddressP0::FaCtrl)
    } else if addr == 0xF7 {
        Some(RegAddressP0::FifoI1)
    } else if addr == 0xF8 {
        Some(RegAddressP0::FifoI2)
    } else if addr == 0xF9 {
        Some(RegAddressP0::FifoBat)
    } else if addr == 0xFA {
        Some(RegAddressP0::FifoAux)
    } else if addr == 0xFC {
        Some(RegAddressP0::RdcvIAddr)
    } else if addr == 0xFF {
        Some(RegAddressP0::RegsCtrl)
    } else {
        None
    }
}

/// Every register of PAGE0 starts at its own address.
pub proof fn page0_registers_are_where_they_belong(register: RegAddressP0)
    ensures
        page0_register_at(register.addr()) == Some(register),
{
}

/// The register of PAGE1 that starts at an address, in the order of the addresses.
pub open spec fn page1_register_at(addr: u8) -> Option<RegAddressP1> {
    if addr == 0x00 {
        Some(RegAddressP1::C1Th)
    } else if addr == 0x06 {
        Some(RegAddressP1::C1Tl)
    } else if addr == 0x0C {
        Some(RegAddressP1::Tb1Th)
    } else if addr == 0x10 {
        Some(RegAddressP1::E1Th)
    } else if addr == 0x16 {
        Some(RegAddressP1::E1Tl)
    } else if addr == 0x20 {
        Some(RegAddressP1::C2Th)
    } else if addr == 0x26 {
        Some(RegAddressP1::C2Tl)
    } else if addr == 0x2C {
        Some(RegAddressP1::Tb2Th)
    } else if addr == 0x30 {
        Some(RegAddressP1::E2Th)
    } else if addr == 0x36 {
        Some(RegAddressP1::E2Tl)
    } else if addr == 0x44 {
        Some(RegAddressP1::C3Th)
    } else if addr == 0x4C {
        Some(RegAddressP1::Tb3Th)
    } else if addr == 0x54 {
        Some(RegAddressP1::C3Tl)
    } else if addr == 0x5C {
        Some(RegAddressP1::Rs1Tc2)
    } else if addr == 0x64 {
        Some(RegAddressP1::E4Th)
    } else if addr == 0x6C {
        Some(RegAddressP1::Tb4Th)
    } else if addr == 0x74 {
        Some(RegAddressP1::E4Tl)
    } else if addr == 0x7C {
        Some(RegAddressP1::Rs2Tc2)
    } else if addr == 0x80 {
        Some(RegAddressP1::I1Th)
    } else if addr == 0x82 {
        Some(RegAddressP1::I1Tl)
    } else if addr == 0x84 {
        Some(RegAddressP1::P1Th)
    } else if addr == 0x86 {
        Some(RegAddressP1::P1Tl)
    } else if addr == 0x88 {
        Some(RegAddressP1::I2Th)
    } else if addr == 0x8A {
        Some(RegAddressP1::I2Tl)
    } else if addr == 0x8C {
        Some(RegAddressP1::P2Th)
    } else if addr == 0x8E {
        Some(RegAddressP1::P2Tl)
    } else if addr == 0x90 {
        Some(RegAddressP1::BatTh)
    } else if addr == 0x92 {
        Some(RegAddressP1::BatTl)
    } else if addr == 0x94 {
        Some(RegAddressP1::TempTh)
    } else if addr == 0x96 {
        Some(RegAddressP1::TempTl)
    } else if addr == 0x98 {
        Some(RegAddressP1::VccTh)
    } else if addr == 0x9A {
        Some(RegAddressP1::VccTl)
    } else if addr == 0xA0 {
        Some(RegAddressP1::Slot1Th)
    } else if addr == 0xA2 {
        Some(RegAddressP1::Slot1Tl)
    } else if addr == 0xA4 {
        Some(RegAddressP1::Slot2Th)
    } else if addr == 0xA6 {
        Some(RegAddressP1::Slot2Tl)
    } else if addr == 0xAA {
        Some(RegAddressP1::Rref1)
    } else if addr == 0xAD {
        Some(RegAddressP1::Rref2)
    } else if addr == 0xB0 {
        Some(RegAddressP1::Rs1Gc)
    } else if addr == 0xB3 {
        Some(RegAddressP1::Rs2Gc)
    } else if addr == 0xB6 {
        Some(RegAddressP1::RsRatio)
    } else if addr == 0xB9 {
        Some(RegAddressP1::BatGc)
    } else if addr == 0xBC {
        Some(RegAddressP1::MuxNset1)
    } else if addr == 0xBD {
        Some(RegAddressP1::MuxPset1)
    } else if addr == 0xBE {
        Some(RegAddressP1::MuxNset2)
    } else if addr == 0xBF {
        Some(RegAddressP1::MuxPset2)
    } else if addr == 0xC0 {
        Some(RegAddressP1::Mux1Gc)
    } else if addr == 0xC3 {
        Some(RegAddressP1::Mux2Gc)
    } else if addr == 0xC6 {
        Some(RegAddressP1::Mux3Gc)
    } else if addr == 0xC9 {
        Some(RegAddressP1::Mux4Gc)
    } else if addr == 0xCC {
        Some(RegAddressP1::MuxNset3)
    } else if addr == 0xCD {
        Some(RegAddressP1::MuxPset3)
    } else if addr == 0xCE {
        Some(RegAddressP1::MuxNset4)
    } else if addr == 0xCF {
        Some(RegAddressP1::MuxPset4)
    } else if addr == 0xD0 {
        Some(RegAddressP1::Ntc1A)
    } else if addr == 0xD3 {
        Some(RegAddressP1::Ntc1B)
    } else if addr == 0xD6 {
        Some(RegAddressP1::Ntc1C)
    } else if addr == 0xD9 {
        Some(RegAddressP1::Rs1Tc)
    } else if addr == 0xDC {
        Some(RegAddressP1::Rs1T0)
    } else if addr == 0xDF {
        Some(RegAddressP1::AdcConf)
    } else if addr == 0xE0 {
        Some(RegAddressP1::Ntc2A)
    } else if addr == 0xE3 {
        Some(RegAddressP1::Ntc2B)
    } else if addr == 0xE6 {
        Some(RegAddressP1::Ntc2C)
    } else if addr == 0xE9 {
        Some(RegAddressP1::Rs2Tc)
    } else if addr == 0xEC {
        Some(RegAddressP1::Rs2T0)
    } else {
        None
    }
}

/// Every register of PAGE1 starts at its own address.
pub proof fn page1_registers_are_where_they_belong(register: RegAddressP1)
    ensures
        page1_register_at(register.addr()) == Some(register),
{
}

/// Whether bit `index` of `byte` is set.
pub open spec fn bit(byte: u8, index: u8) -> bool {
    byte & (1u8 << index) != 0
}

/// `byte` with bit `index` set to `value`.
pub open spec fn with_bit(byte: u8, index: u8, value: bool) -> u8 {
    if value {
        byte | (1u8 << index)
    } else {
        byte & !(1u8 << index)
    }
}

/// Setting one bit of a register gives it the new value and keeps every other bit.
pub proof fn with_bit_changes_one_bit(byte: u8, index: u8, value: bool, other: u8)
    requires
        index < 8,
        other < 8,
    ensures
        bit(with_bit(byte, index, value), other) == (if other == index {
            value
        } else {
            bit(byte, other)
        }),
{
    assert(index < 8 && other < 8 ==> bit(with_bit(byte, index, value), other) == (if other == index {
        value
    } else {
        bit(byte, other)
    })) by (bit_vector);
}

/// A register byte is determined by its eight bits.
pub proof fn bits_determine_the_byte(first: u8, second: u8)
    requires
        forall|index: u8| index < 8 ==> bit(first, index) == bit(second, index),
    ensures
        first == second,
{
    assert(bit(first, 0) == bit(second, 0) && bit(first, 1) == bit(second, 1) && bit(first, 2) == bit(second, 2) && bit(
        first,
        3,
    ) == bit(second, 3) && bit(first, 4) == bit(second, 4) && bit(first, 5) == bit(second, 5) && bit(first, 6) == bit(
        second,
        6,
    ) && bit(first, 7) == bit(second, 7));
    assert((bit(first, 0) == bit(second, 0) && bit(first, 1) == bit(second, 1) && bit(first, 2) == bit(second, 2)
        && bit(first, 3) == bit(second, 3) && bit(first, 4) == bit(second, 4) && bit(first, 5) == bit(second, 5)
        && bit(first, 6) == bit(second, 6) && bit(first, 7) == bit(second, 7)) ==> first == second) by (bit_vector);
}

/// The memory-lock field of a register control byte.
pub open spec fn lock_field(byte: u8) -> u8 {
    (byte >> 4) & 3
}

/// The register control byte with the memory-lock field `value`.
pub open spec fn with_lock_field(byte: u8, value: u8) -> u8 {
    (byte & 0xCF) | (value << 4)
}

/// Setting the memory-lock field gives it the new value and keeps every bit outside it.
pub proof fn lock_field_reads_back(byte: u8, value: u8, other: u8)
    requires
        value < 4,
        other < 8,
    ensures
        lock_field(with_lock_field(byte, value)) == value,
        other != 4 && other != 5 ==> bit(with_lock_field(byte, value), other) == bit(byte, other),
{
    assert(value < 4 && other < 8 ==> lock_field(with_lock_field(byte, value)) == value && (other != 4 && other != 5
        ==> bit(with_lock_field(byte, value), other) == bit(byte, other))) by (bit_vector);
}

fn get_bit(byte: u8, index: u8) -> (set: bool)
    requires
        index < 8,
    ensures
        set == bit(byte, index),
{
    byte & (1u8 << index) != 0
}

fn set_bit(byte: u8, index: u8, value: bool) -> (changed: u8)
    requires
        index < 8,
    ensures
        changed == with_bit(byte, index, value),
{
    if value {
        byte | (1u8 << index)
    } else {
        byte & !(1u8 << index)
    }
}

/// Operation Control register (PAGE0, 0xF0) — datasheet Table 24. `clr`, `sshot`, `adjupd`
/// and `rst` are set-only; the device clears them once done (poll to observe completion).
#[derive(Copy, Clone, Eq, PartialEq, Structural, Debug)]
pub struct OpsControlRegister {
    byte: u8,
}

impl View for OpsControlRegister {
    type V = u8;

    closed spec fn view(&self) -> u8 {
        self.byte
    }
}

impl OpsControlRegister {
    /// The register with every bit clear.
    pub fn new() -> (register: Self)
        ensures
            register@ == 0,
    {
        OpsControlRegister { byte: 0 }
    }

    /// The register that holds `bytes[0]`, reserved bits included.
    pub fn from_bytes(bytes: [u8; 1]) -> (register: Self)
        ensures
            register@ == bytes[0],
    {
        OpsControlRegister { byte: bytes[0] }
    }

    /// The byte of the register, reserved bits included.
    pub fn into_bytes(self) -> (bytes: [u8; 1])
        ensures
            bytes@ == seq![self@],
    {
        let bytes = [self.byte];
        proof {
            assert(bytes@ =~= seq![self@]);
        }
        bytes
    }

    /// Whether the `sleep` bit is set.
    pub open spec fn spec_sleep(&self) -> bool {
        bit(self@, 0)
    }

    /// SLEEP: `0` = normal operation, `1` = enter SLEEP. The part exits SLEEP on CSB low
    /// in SPI mode or the datasheet wake-up pulse sequence in isoSPI mode.
    #[verifier::when_used_as_spec(spec_sleep)]
    pub fn sleep(&self) -> (value: bool)
        ensures
            value == self.spec_sleep(),
    {
        get_bit(self.byte, 0)
    }

    /// The register with the `sleep` bit set to `value`.
    pub fn with_sleep(self, value: bool) -> (register: Self)
        ensures
            register@ == with_bit(self@, 0, value),
            register.sleep() == value,
    {
        proof {
            with_bit_changes_one_bit(self.byte, 0, value, 0);
        }
        OpsControlRegister { byte: set_bit(self.byte, 0, value) }
    }

    /// Whether the `clr` bit is set.
    pub open spec fn spec_clr(&self) -> bool {
        bit(self@, 1)
    }

    /// CLR, set-only: clear accumulation and tracking registers, including charge, energy,
    /// time-base, max/min measurement, temperature, VCC and SLOT tracking registers.
    #[verifier::when_used_as_spec(spec_clr)]
    pub fn clr(&self) -> (value: bool)
        ensures
            value == self.spec_clr(),
    {
        get_bit(self.byte, 1)
    }

    /// The register with the `clr` bit set to `value`.
    pub fn with_clr(self, value: bool) -> (register: Self)
        ensures
            register@ == with_bit(self@, 1, value),
            register.clr() == value,
    {
        proof {
            with_bit_changes_one_bit(self.byte, 1, value, 1);
        }
        OpsControlRegister { byte: set_bit(self.byte, 1, value) }
    }

    /// Whether the `sshot` bit is set.
    pub open spec fn spec_sshot(&self) -> bool {
        bit(self@, 2)
    }

    /// SSHOT, set-only: start one measurement set, update result registers, then return to
    /// STANDBY. If CONT is set, the current conversion cycle completes first.
    #[verifier::when_used_as_spec(spec_sshot)]
    pub fn sshot(&self) -> (value: bool)
        ensures
            value == self.spec_sshot(),
    {
        get_bit(self.byte, 2)
    }

    /// The register with the `sshot` bit set to `value`.
    pub fn with_sshot(self, value: bool) -> (register: Self)
        ensures
            register@ == with_bit(self@, 2, value),
            register.sshot() == value,
    {
        proof {
            with_bit_changes_one_bit(self.byte, 2, value, 2);
        }
        OpsControlRegister { byte: set_bit(self.byte, 2, value) }
    }

    /// Whether the `cont` bit is set.
    pub open spec fn spec_cont(&self) -> bool {
        bit(self@, 3)
    }

    /// CONT: enable continuous measurement. Charge, energy and time accumulation are active
    /// only while continuous mode is enabled.
    #[verifier::when_used_as_spec(spec_cont)]
    pub fn cont(&self) -> (value: bool)
        ensures
            value == self.spec_cont(),
    {
        get_bit(self.byte, 3)
    }

    /// The register with the `cont` bit set to `value`.
    pub fn with_cont(self, value: bool) -> (register: Self)
        ensures
            register@ == with_bit(self@, 3, value),
            register.cont() == value,
    {
        proof {
            with_bit_changes_one_bit(self.byte, 3, value, 3);
        }
        OpsControlRegister { byte: set_bit(self.byte, 3, value) }
    }

    /// Whether the `adjupd` bit is set.
    pub open spec fn spec_adjupd(&self) -> bool {
        bit(self@, 5)
    }

    /// ADJUPD, set-only: request an update of page-1 configuration registers except
    /// thresholds. Issue in STANDBY; the device clears the bit when the update is done.
    #[verifier::when_used_as_spec(spec_adjupd)]
    pub fn adjupd(&self) -> (value: bool)
        ensures
            value == self.spec_adjupd(),
    {
        get_bit(self.byte, 5)
    }

    /// The register with the `adjupd` bit set to `value`.
    pub fn with_adjupd(self, value: bool) -> (register: Self)
        ensures
            register@ == with_bit(self@, 5, value),
            register.adjupd() == value,
    {
        proof {
            with_bit_changes_one_bit(self.byte, 5, value, 5);
        }
        OpsControlRegister { byte: set_bit(self.byte, 5, value) }
    }

    /// Whether the `rst` bit is set.
    pub open spec fn spec_rst(&self) -> bool {
        bit(self@, 7)
    }

    /// RST, set-only: request software reset. The reset function is locked by default and
    /// requires the RSTUNLCK sequence before this bit has an effect.
    #[verifier::when_used_as_spec(spec_rst)]
    pub fn rst(&self) -> (value: bool)
        ensures
            value == self.spec_rst(),
    {
        get_bit(self.byte, 7)
    }

    /// The register with the `rst` bit set to `value`.
    pub fn with_rst(self, value: bool) -> (register: Self)
        ensures
            register@ == with_bit(self@, 7, value),
            register.rst() == value,
    {
        proof {
            with_bit_changes_one_bit(self.byte, 7, value, 7);
        }
        OpsControlRegister { byte: set_bit(self.byte, 7, value) }
    }
}

impl Default for OpsControlRegister {
    fn default() -> (register: Self)
        ensures
            register@ == 0,
    {
        Self::new()
    }
}

/// Fast Control register (PAGE0, 0xF5) — datasheet Table 60.
#[derive(Copy, Clone, Eq, PartialEq, Structural, Debug)]
pub struct FastControlRegister {
    byte: u8,
}

impl View for FastControlRegister {
    type V = u8;

    closed spec fn view(&self) -> u8 {
        self.byte
    }
}

impl FastControlRegister {
    /// The register with every bit clear.
    pub fn new() -> (register: Self)
        ensures
            register@ == 0,
    {
        FastControlRegister { byte: 0 }
    }

    /// The register that holds `bytes[0]`, reserved bits included.
    pub fn from_bytes(bytes: [u8; 1]) -> (register: Self)
        ensures
            register@ == bytes[0],
    {
        FastControlRegister { byte: bytes[0] }
    }

    /// The byte of the register, reserved bits included.
    pub fn into_bytes(self) -> (bytes: [u8; 1])
        ensures
            bytes@ == seq![self@],
    {
        let bytes = [self.byte];
        proof {
            assert(bytes@ =~= seq![self@]);
        }
        bytes
    }

    /// Whether the `faconv` bit is set.
    pub open spec fn spec_faconv(&self) -> bool {
        bit(self@, 0)
    }

    /// FACONV: enable continuous fast conversions. When this is set and at least one of
    /// `FACHA`, `FACH1` or `FACH2` is set, fast conversion results are written to the
    /// corresponding FIFO.
    #[verifier::when_used_as_spec(spec_faconv)]
    pub fn faconv(&self) -> (value: bool)
        ensures
            value == self.spec_faconv(),
    {
        get_bit(self.byte, 0)
    }

    /// The register with the `faconv` bit set to `value`.
    pub fn with_faconv(self, value: bool) -> (register: Self)
        ensures
            register@ == with_bit(self@, 0, value),
            register.faconv() == value,
    {
        proof {
            with_bit_changes_one_bit(self.byte, 0, value, 0);
        }
        FastControlRegister { byte: set_bit(self.byte, 0, value) }
    }

    /// Whether the `facha` bit is set.
    pub open spec fn spec_facha(&self) -> bool {
        bit(self@, 1)
    }

    /// FACHA: include the auxiliary channel in fast mode. AUX fast conversions start after
    /// a FACONV rising edge or when an ADCV-style command is issued.
    #[verifier::when_used_as_spec(spec_facha)]
    pub fn facha(&self) -> (value: bool)
        ensures
            value == self.spec_facha(),
    {
        get_bit(self.byte, 1)
    }

    /// The register with the `facha` bit set to `value`.
    pub fn with_facha(self, value: bool) -> (register: Self)
        ensures
            register@ == with_bit(self@, 1, value),
            register.facha() == value,
    {
        proof {
            with_bit_changes_one_bit(self.byte, 1, value, 1);
        }
        FastControlRegister { byte: set_bit(self.byte, 1, value) }
    }

    /// Whether the `fach1` bit is set.
    pub open spec fn spec_fach1(&self) -> bool {
        bit(self@, 2)
    }

    /// FACH1: include channel 1 in fast mode. CH1 fast conversions start after a FACONV
    /// rising edge or when an ADCV-style command is issued.
    #[verifier::when_used_as_spec(spec_fach1)]
    pub fn fach1(&self) -> (value: bool)
        ensures
            value == self.spec_fach1(),
    {
        get_bit(self.byte, 2)
    }

    /// The register with the `fach1` bit set to `value`.
    pub fn with_fach1(self, value: bool) -> (register: Self)
        ensures
            register@ == with_bit(self@, 2, value),
            register.fach1() == value,
    {
        proof {
            with_bit_changes_one_bit(self.byte, 2, value, 2);
        }
        FastControlRegister { byte: set_bit(self.byte, 2, value) }
    }

    /// Whether the `fach2` bit is set.
    pub open spec fn spec_fach2(&self) -> bool {
        bit(self@, 3)
    }

    /// FACH2: include channel 2 in fast mode. CH2 fast conversions start after a FACONV
    /// rising edge or when an ADCV-style command is issued.
    #[verifier::when_used_as_spec(spec_fach2)]
    pub fn fach2(&self) -> (value: bool)
        ensures
            value == self.spec_fach2(),
    {
        get_bit(self.byte, 3)
    }

    /// The register with the `fach2` bit set to `value`.
    pub fn with_fach2(self, value: bool) -> (register: Self)
        ensures
            register@ == with_bit(self@, 3, value),
            register.fach2() == value,
    {
        proof {
            with_bit_changes_one_bit(self.byte, 3, value, 3);
        }
        FastControlRegister { byte: set_bit(self.byte, 3, value) }
    }
}

impl Default for FastControlRegister {
    fn default() -> (register: Self)
        ensures
            register@ == 0,
    {
        Self::new()
    }
}

/// ADC Configuration register (PAGE1, 0xDF) — datasheet Table 69. `p1asv`/`p2asv` set
/// power ADCs to voltage mode; `ntc1`/`ntc2` linearise the SLOT; `ntcslot1` ties CH2 TC to NTC1.
#[derive(Copy, Clone, Eq, PartialEq, Structural, Debug)]
pub struct AdcConfiguration {
    byte: u8,
}

impl View for AdcConfiguration {
    type V = u8;

    closed spec fn view(&self) -> u8 {
        self.byte
    }
}

impl AdcConfiguration {
    /// The register with every bit clear.
    pub fn new() -> (register: Self)
        ensures
            register@ == 0,
    {
        AdcConfiguration { byte: 0 }
    }

    /// The register that holds `bytes[0]`, reserved bits included.
    pub fn from_bytes(bytes: [u8; 1]) -> (register: Self)
        ensures
            register@ == bytes[0],
    {
        AdcConfiguration { byte: bytes[0] }
    }

    /// The byte of the register, reserved bits included.
    pub fn into_bytes(self) -> (bytes: [u8; 1])
        ensures
            bytes@ == seq![self@],
    {
        let bytes = [self.byte];
        proof {
            assert(bytes@ =~= seq![self@]);
        }
        bytes
    }

    /// Whether the `p1asv` bit is set.
    pub open spec fn spec_p1asv(&self) -> bool {
        bit(self@, 0)
    }

    /// P1ASV: configure P1ADC as voltage instead of power. `0` = power mode,
    /// `1` = voltage mode.
    #[verifier::when_used_as_spec(spec_p1asv)]
    pub fn p1asv(&self) -> (value: bool)
        ensures
            value == self.spec_p1asv(),
    {
        get_bit(self.byte, 0)
    }

    /// The register with the `p1asv` bit set to `value`.
    pub fn with_p1asv(self, value: bool) -> (register: Self)
        ensures
            register@ == with_bit(self@, 0, value),
            register.p1asv() == value,
    {
        proof {
            with_bit_changes_one_bit(self.byte, 0, value, 0);
        }
        AdcConfiguration { byte: set_bit(self.byte, 0, value) }
    }

    /// Whether the `p2asv` bit is set.
    pub open spec fn spec_p2asv(&self) -> bool {
        bit(self@, 1)
    }

    /// P2ASV: configure P2ADC as voltage instead of power. `0` = power mode,
    /// `1` = voltage mode.
    #[verifier::when_used_as_spec(spec_p2asv)]
    pub fn p2asv(&self) -> (value: bool)
        ensures
            value == self.spec_p2asv(),
    {
        get_bit(self.byte, 1)
    }

    /// The register with the `p2asv` bit set to `value`.
    pub fn with_p2asv(self, value: bool) -> (register: Self)
        ensures
            register@ == with_bit(self@, 1, value),
            register.p2asv() == value,
    {
        proof {
            with_bit_changes_one_bit(self.byte, 1, value, 1);
        }
        AdcConfiguration { byte: set_bit(self.byte, 1, value) }
    }

    /// Whether the `ntc1` bit is set.
    pub open spec fn spec_ntc1(&self) -> bool {
        bit(self@, 3)
    }

    /// NTC1: SLOT1 result mode. `0` = voltage measurement with 375 uV LSB,
    /// `1` = NTC temperature measurement with 0.2 deg C LSB.
    #[verifier::when_used_as_spec(spec_ntc1)]
    pub fn ntc1(&self) -> (value: bool)
        ensures
            value == self.spec_ntc1(),
    {
        get_bit(self.byte, 3)
    }

    /// The register with the `ntc1` bit set to `value`.
    pub fn with_ntc1(self, value: bool) -> (register: Self)
        ensures
            register@ == with_bit(self@, 3, value),
            register.ntc1() == value,
    {
        proof {
            with_bit_changes_one_bit(self.byte, 3, value, 3);
        }
        AdcConfiguration { byte: set_bit(self.byte, 3, value) }
    }

    /// Whether the `ntc2` bit is set.
    pub open spec fn spec_ntc2(&self) -> bool {
        bit(self@, 4)
    }

    /// NTC2: SLOT2 result mode. `0` = voltage measurement with 375 uV LSB,
    /// `1` = NTC temperature measurement with 0.2 deg C LSB.
    #[verifier::when_used_as_spec(spec_ntc2)]
    pub fn ntc2(&self) -> (value: bool)
        ensures
            value == self.spec_ntc2(),
    {
        get_bit(self.byte, 4)
    }

    /// The register with the `ntc2` bit set to `value`.
    pub fn with_ntc2(self, value: bool) -> (register: Self)
        ensures
            register@ == with_bit(self@, 4, value),
            register.ntc2() == value,
    {
        proof {
            with_bit_changes_one_bit(self.byte, 4, value, 4);
        }
        AdcConfiguration { byte: set_bit(self.byte, 4, value) }
    }

    /// Whether the `ntcslot1` bit is set.
    pub open spec fn spec_ntcslot1(&self) -> bool {
        bit(self@, 6)
    }

    /// NTCSLOT1: shunt temperature-compensation source selection. `0` links I1 TC to
    /// SLOT1 and I2 TC to SLOT2; `1` links both I1 and I2 TC compensation to SLOT1.
    #[verifier::when_used_as_spec(spec_ntcslot1)]
    pub fn ntcslot1(&self) -> (value: bool)
        ensures
            value == self.spec_ntcslot1(),
    {
        get_bit(self.byte, 6)
    }

    /// The register with the `ntcslot1` bit set to `value`.
    pub fn with_ntcslot1(self, value: bool) -> (register: Self)
        ensures
            register@ == with_bit(self@, 6, value),
            register.ntcslot1() == value,
    {
        proof {
            with_bit_changes_one_bit(self.byte, 6, value, 6);
        }
        AdcConfiguration { byte: set_bit(self.byte, 6, value) }
    }
}

impl Default for AdcConfiguration {
    fn default() -> (register: Self)
        ensures
            register@ == 0,
    {
        Self::new()
    }
}

/// Register Control register (common to both pages, 0xFF) — datasheet Table 23. `mlk` is
/// the 2-bit memory-lock handshake (`0b01` request, `0b10` device-acknowledged).
#[derive(Copy, Clone, Eq, PartialEq, Structural, Debug)]
pub struct RegControlRegister {
    byte: u8,
}

impl View for RegControlRegister {
    type V = u8;

    closed spec fn view(&self) -> u8 {
        self.byte
    }
}

impl RegControlRegister {
    /// The register with every bit clear.
    pub fn new() -> (register: Self)
        ensures
            register@ == 0,
    {
        RegControlRegister { byte: 0 }
    }

    /// The register that holds `bytes[0]`, reserved bits included.
    pub fn from_bytes(bytes: [u8; 1]) -> (register: Self)
        ensures
            register@ == bytes[0],
    {
        RegControlRegister { byte: bytes[0] }
    }

    /// The byte of the register, reserved bits included.
    pub fn into_bytes(self) -> (bytes: [u8; 1])
        ensures
            bytes@ == seq![self@],
    {
        let bytes = [self.byte];
        proof {
            assert(bytes@ =~= seq![self@]);
        }
        bytes
    }

    /// Whether the `page` bit is set.
    pub open spec fn spec_page(&self) -> bool {
        bit(self@, 0)
    }

    /// PAGE: active memory-map page. `0` selects PAGE0 result/control registers;
    /// `1` selects PAGE1 threshold/configuration registers.
    #[verifier::when_used_as_spec(spec_page)]
    pub fn page(&self) -> (value: bool)
        ensures
            value == self.spec_page(),
    {
        get_bit(self.byte, 0)
    }

    /// The register with the `page` bit set to `value`.
    pub fn with_page(self, value: bool) -> (register: Self)
        ensures
            register@ == with_bit(self@, 0, value),
            register.page() == value,
    {
        proof {
            with_bit_changes_one_bit(self.byte, 0, value, 0);
        }
        RegControlRegister { byte: set_bit(self.byte, 0, value) }
    }

    /// Whether the `bcren` bit is set.
    pub open spec fn spec_bcren(&self) -> bool {
        bit(self@, 2)
    }

    /// BCREN: broadcast read enable. Keep cleared in the parallel-to-daisy-chain topology
    /// so the LTC2949 does not respond to broadcast reads and collide with cell monitors.
    #[verifier::when_used_as_spec(spec_bcren)]
    pub fn bcren(&self) -> (value: bool)
        ensures
            value == self.spec_bcren(),
    {
        get_bit(self.byte, 2)
    }

    /// The register with the `bcren` bit set to `value`.
    pub fn with_bcren(self, value: bool) -> (register: Self)
        ensures
            register@ == with_bit(self@, 2, value),
            register.bcren() == value,
    {
        proof {
            with_bit_changes_one_bit(self.byte, 2, value, 2);
        }
        RegControlRegister { byte: set_bit(self.byte, 2, value) }
    }

    /// MLK\[1:0\]: memory-lock handshake. `0b00` = unlocked, `0b01` = lock requested by
    /// master, `0b10` = memory locked/acknowledged by the LTC2949.
    pub fn mlk(&self) -> (value: u8)
        ensures
            value == lock_field(self@),
    {
        (self.byte >> 4) & 3
    }

    /// The register with the `mlk` field set to `value`, a number below four.
    pub fn with_mlk(self, value: u8) -> (register: Self)
        requires
            value < 4,
        ensures
            register@ == with_lock_field(self@, value),
    {
        RegControlRegister { byte: (self.byte & 0xCF) | (value << 4) }
    }

    /// Whether the `rdcvconf` bit is set.
    pub open spec fn spec_rdcvconf(&self) -> bool {
        bit(self@, 7)
    }

    /// RDCVCONF: RDCV readout mode. `0` = indirect memory access from RDCVIADDR (0xFC);
    /// `1` = RDCV reports the latest fast-channel conversion results.
    #[verifier::when_used_as_spec(spec_rdcvconf)]
    pub fn rdcvconf(&self) -> (value: bool)
        ensures
            value == self.spec_rdcvconf(),
    {
        get_bit(self.byte, 7)
    }

    /// The register with the `rdcvconf` bit set to `value`.
    pub fn with_rdcvconf(self, value: bool) -> (register: Self)
        ensures
            register@ == with_bit(self@, 7, value),
            register.rdcvconf() == value,
    {
        proof {
            with_bit_changes_one_bit(self.byte, 7, value, 7);
        }
        RegControlRegister { byte: set_bit(self.byte, 7, value) }
    }
}

impl Default for RegControlRegister {
    fn default() -> (register: Self)
        ensures
            register@ == 0,
    {
        Self::new()
    }
}

/// Status register (PAGE0, 0x80; datasheet Table 26).
#[derive(Copy, Clone, Eq, PartialEq, Structural, Debug)]
pub struct StatusRegister {
    byte: u8,
}

impl View for StatusRegister {
    type V = u8;

    closed spec fn view(&self) -> u8 {
        self.byte
    }
}

impl StatusRegister {
    /// The register with every bit clear.
    pub fn new() -> (register: Self)
        ensures
            register@ == 0,
    {
        StatusRegister { byte: 0 }
    }

    /// The register that holds `bytes[0]`, reserved bits included.
    pub fn from_bytes(bytes: [u8; 1]) -> (register: Self)
        ensures
            register@ == bytes[0],
    {
        StatusRegister { byte: bytes[0] }
    }

    /// The byte of the register, reserved bits included.
    pub fn into_bytes(self) -> (bytes: [u8; 1])
        ensures
            bytes@ == seq![self@],
    {
        let bytes = [self.byte];
        proof {
            assert(bytes@ =~= seq![self@]);
        }
        bytes
    }

    /// Whether the `uvloa` bit is set.
    pub open spec fn spec_uvloa(&self) -> bool {
        bit(self@, 0)
    }

    /// UVLOA: analog supply undervoltage lockout occurred.
    #[verifier::when_used_as_spec(spec_uvloa)]
    pub fn uvloa(&self) -> (value: bool)
        ensures
            value == self.spec_uvloa(),
    {
        get_bit(self.byte, 0)
    }

    /// The register with the `uvloa` bit set to `value`.
    pub fn with_uvloa(self, value: bool) -> (register: Self)
        ensures
            register@ == with_bit(self@, 0, value),
            register.uvloa() == value,
    {
        proof {
            with_bit_changes_one_bit(self.byte, 0, value, 0);
        }
        StatusRegister { byte: set_bit(self.byte, 0, value) }
    }

    /// Whether the `pora` bit is set.
    pub open spec fn spec_pora(&self) -> bool {
        bit(self@, 1)
    }

    /// PORA: analog supply power-on reset occurred.
    #[verifier::when_used_as_spec(spec_pora)]
    pub fn pora(&self) -> (value: bool)
        ensures
            value == self.spec_pora(),
    {
        get_bit(self.byte, 1)
    }

    /// The register with the `pora` bit set to `value`.
    pub fn with_pora(self, value: bool) -> (register: Self)
        ensures
            register@ == with_bit(self@, 1, value),
            register.pora() == value,
    {
        proof {
            with_bit_changes_one_bit(self.byte, 1, value, 1);
        }
        StatusRegister { byte: set_bit(self.byte, 1, value) }
    }

    /// Whether the `uvlostby` bit is set.
    pub open spec fn spec_uvlostby(&self) -> bool {
        bit(self@, 2)
    }

    /// UVLOSTBY: standby regulator undervoltage lockout occurred.
    #[verifier::when_used_as_spec(spec_uvlostby)]
    pub fn uvlostby(&self) -> (value: bool)
        ensures
            value == self.spec_uvlostby(),
    {
        get_bit(self.byte, 2)
    }

    /// The register with the `uvlostby` bit set to `value`.
    pub fn with_uvlostby(self, value: bool) -> (register: Self)
        ensures
            register@ == with_bit(self@, 2, value),
            register.uvlostby() == value,
    {
        proof {
            with_bit_changes_one_bit(self.byte, 2, value, 2);
        }
        StatusRegister { byte: set_bit(self.byte, 2, value) }
    }

    /// Whether the `uvlod` bit is set.
    pub open spec fn spec_uvlod(&self) -> bool {
        bit(self@, 3)
    }

    /// UVLOD: digital supply undervoltage lockout occurred.
    #[verifier::when_used_as_spec(spec_uvlod)]
    pub fn uvlod(&self) -> (value: bool)
        ensures
            value == self.spec_uvlod(),
    {
        get_bit(self.byte, 3)
    }

    /// The register with the `uvlod` bit set to `value`.
    pub fn with_uvlod(self, value: bool) -> (register: Self)
        ensures
            register@ == with_bit(self@, 3, value),
            register.uvlod() == value,
    {
        proof {
            with_bit_changes_one_bit(self.byte, 3, value, 3);
        }
        StatusRegister { byte: set_bit(self.byte, 3, value) }
    }

    /// Whether the `update` bit is set.
    pub open spec fn spec_update(&self) -> bool {
        bit(self@, 4)
    }

    /// UPDATE: result registers have been updated.
    #[verifier::when_used_as_spec(spec_update)]
    pub fn update(&self) -> (value: bool)
        ensures
            value == self.spec_update(),
    {
        get_bit(self.byte, 4)
    }

    /// The register with the `update` bit set to `value`.
    pub fn with_update(self, value: bool) -> (register: Self)
        ensures
            register@ == with_bit(self@, 4, value),
            register.update() == value,
    {
        proof {
            with_bit_changes_one_bit(self.byte, 4, value, 4);
        }
        StatusRegister { byte: set_bit(self.byte, 4, value) }
    }

    /// Whether the `adcerr` bit is set.
    pub open spec fn spec_adcerr(&self) -> bool {
        bit(self@, 5)
    }

    /// ADCERR: ADC error occurred.
    #[verifier::when_used_as_spec(spec_adcerr)]
    pub fn adcerr(&self) -> (value: bool)
        ensures
            value == self.spec_adcerr(),
    {
        get_bit(self.byte, 5)
    }

    /// The register with the `adcerr` bit set to `value`.
    pub fn with_adcerr(self, value: bool) -> (register: Self)
        ensures
            register@ == with_bit(self@, 5, value),
            register.adcerr() == value,
    {
        proof {
            with_bit_changes_one_bit(self.byte, 5, value, 5);
        }
        StatusRegister { byte: set_bit(self.byte, 5, value) }
    }

    /// Whether the `tberr` bit is set.
    pub open spec fn spec_tberr(&self) -> bool {
        bit(self@, 6)
    }

    /// TBERR: time-base error occurred.
    #[verifier::when_used_as_spec(spec_tberr)]
    pub fn tberr(&self) -> (value: bool)
        ensures
            value == self.spec_tberr(),
    {
        get_bit(self.byte, 6)
    }

    /// The register with the `tberr` bit set to `value`.
    pub fn with_tberr(self, value: bool) -> (register: Self)
        ensures
            register@ == with_bit(self@, 6, value),
            register.tberr() == value,
    {
        proof {
            with_bit_changes_one_bit(self.byte, 6, value, 6);
        }
        StatusRegister { byte: set_bit(self.byte, 6, value) }
    }
}

/// Voltage, Temperature Threshold Alerts register (PAGE0, 0x81; datasheet Table 35).
#[derive(Copy, Clone, Eq, PartialEq, Structural, Debug)]
pub struct VTAlerts {
    byte: u8,
}

impl View for VTAlerts {
    type V = u8;

    closed spec fn view(&self) -> u8 {
        self.byte
    }
}

impl VTAlerts {
    /// The register with every bit clear.
    pub fn new() -> (register: Self)
        ensures
            register@ == 0,
    {
        VTAlerts { byte: 0 }
    }

    /// The register that holds `bytes[0]`, reserved bits included.
    pub fn from_bytes(bytes: [u8; 1]) -> (register: Self)
        ensures
            register@ == bytes[0],
    {
        VTAlerts { byte: bytes[0] }
    }

    /// The byte of the register, reserved bits included.
    pub fn into_bytes(self) -> (bytes: [u8; 1])
        ensures
            bytes@ == seq![self@],
    {
        let bytes = [self.byte];
        proof {
            assert(bytes@ =~= seq![self@]);
        }
        bytes
    }

    /// Whether the `bath` bit is set.
    pub open spec fn spec_bath(&self) -> bool {
        bit(self@, 0)
    }

    /// BATH: voltage (VBATP – VBATM) high threshold exceeded.
    #[verifier::when_used_as_spec(spec_bath)]
    pub fn bath(&self) -> (value: bool)
        ensures
            value == self.spec_bath(),
    {
        get_bit(self.byte, 0)
    }

    /// The register with the `bath` bit set to `value`.
    pub fn with_bath(self, value: bool) -> (register: Self)
        ensures
            register@ == with_bit(self@, 0, value),
            register.bath() == value,
    {
        proof {
            with_bit_changes_one_bit(self.byte, 0, value, 0);
        }
        VTAlerts { byte: set_bit(self.byte, 0, value) }
    }

    /// Whether the `batl` bit is set.
    pub open spec fn spec_batl(&self) -> bool {
        bit(self@, 1)
    }

    /// BATL: voltage (VBATP – VBATM) low threshold exceeded.
    #[verifier::when_used_as_spec(spec_batl)]
    pub fn batl(&self) -> (value: bool)
        ensures
            value == self.spec_batl(),
    {
        get_bit(self.byte, 1)
    }

    /// The register with the `batl` bit set to `value`.
    pub fn with_batl(self, value: bool) -> (register: Self)
        ensures
            register@ == with_bit(self@, 1, value),
            register.batl() == value,
    {
        proof {
            with_bit_changes_one_bit(self.byte, 1, value, 1);
        }
        VTAlerts { byte: set_bit(self.byte, 1, value) }
    }

    /// Whether the `temph` bit is set.
    pub open spec fn spec_temph(&self) -> bool {
        bit(self@, 2)
    }

    /// TEMPH: temperature high threshold exceeded.
    #[verifier::when_used_as_spec(spec_temph)]
    pub fn temph(&self) -> (value: bool)
        ensures
            value == self.spec_temph(),
    {
        get_bit(self.byte, 2)
    }

    /// The register with the `temph` bit set to `value`.
    pub fn with_temph(self, value: bool) -> (register: Self)
        ensures
            register@ == with_bit(self@, 2, value),
            register.temph() == value,
    {
        proof {
            with_bit_changes_one_bit(self.byte, 2, value, 2);
        }
        VTAlerts { byte: set_bit(self.byte, 2, value) }
    }

    /// Whether the `templ` bit is set.
    pub open spec fn spec_templ(&self) -> bool {
        bit(self@, 3)
    }

    /// TEMPL: temperature low threshold exceeded.
    #[verifier::when_used_as_spec(spec_templ)]
    pub fn templ(&self) -> (value: bool)
        ensures
            value == self.spec_templ(),
    {
        get_bit(self.byte, 3)
    }

    /// The register with the `templ` bit set to `value`.
    pub fn with_templ(self, value: bool) -> (register: Self)
        ensures
            register@ == with_bit(self@, 3, value),
            register.templ() == value,
    {
        proof {
            with_bit_changes_one_bit(self.byte, 3, value, 3);
        }
        VTAlerts { byte: set_bit(self.byte, 3, value) }
    }

    /// Whether the `slot1h` bit is set.
    pub open spec fn spec_slot1h(&self) -> bool {
        bit(self@, 4)
    }

    /// SLOT1H: SLOT1 high threshold exceeded.
    #[verifier::when_used_as_spec(spec_slot1h)]
    pub fn slot1h(&self) -> (value: bool)
        ensures
            value == self.spec_slot1h(),
    {
        get_bit(self.byte, 4)
    }

    /// The register with the `slot1h` bit set to `value`.
    pub fn with_slot1h(self, value: bool) -> (register: Self)
        ensures
            register@ == with_bit(self@, 4, value),
            register.slot1h() == value,
    {
        proof {
            with_bit_changes_one_bit(self.byte, 4, value, 4);
        }
        VTAlerts { byte: set_bit(self.byte, 4, value) }
    }

    /// Whether the `slot1l` bit is set.
    pub open spec fn spec_slot1l(&self) -> bool {
        bit(self@, 5)
    }

    /// SLOT1L: SLOT1 low threshold exceeded.
    #[verifier::when_used_as_spec(spec_slot1l)]
    pub fn slot1l(&self) -> (value: bool)
        ensures
            value == self.spec_slot1l(),
    {
        get_bit(self.byte, 5)
    }

    /// The register with the `slot1l` bit set to `value`.
    pub fn with_slot1l(self, value: bool) -> (register: Self)
        ensures
            register@ == with_bit(self@, 5, value),
            register.slot1l() == value,
    {
        proof {
            with_bit_changes_one_bit(self.byte, 5, value, 5);
        }
        VTAlerts { byte: set_bit(self.byte, 5, value) }
    }

    /// Whether the `slot2h` bit is set.
    pub open spec fn spec_slot2h(&self) -> bool {
        bit(self@, 6)
    }

    /// SLOT2H: SLOT2 high threshold exceeded.
    #[verifier::when_used_as_spec(spec_slot2h)]
    pub fn slot2h(&self) -> (value: bool)
        ensures
            value == self.spec_slot2h(),
    {
        get_bit(self.byte, 6)
    }

    /// The register with the `slot2h` bit set to `value`.
    pub fn with_slot2h(self, value: bool) -> (register: Self)
        ensures
            register@ == with_bit(self@, 6, value),
            register.slot2h() == value,
    {
        proof {
            with_bit_changes_one_bit(self.byte, 6, value, 6);
        }
        VTAlerts { byte: set_bit(self.byte, 6, value) }
    }

    /// Whether the `slot2l` bit is set.
    pub open spec fn spec_slot2l(&self) -> bool {
        bit(self@, 7)
    }

    /// SLOT2L: SLOT2 low threshold exceeded.
    #[verifier::when_used_as_spec(spec_slot2l)]
    pub fn slot2l(&self) -> (value: bool)
        ensures
            value == self.spec_slot2l(),
    {
        get_bit(self.byte, 7)
    }

    /// The register with the `slot2l` bit set to `value`.
    pub fn with_slot2l(self, value: bool) -> (register: Self)
        ensures
            register@ == with_bit(self@, 7, value),
            register.slot2l() == value,
    {
        proof {
            with_bit_changes_one_bit(self.byte, 7, value, 7);
        }
        VTAlerts { byte: set_bit(self.byte, 7, value) }
    }
}

/// Current and power threshold alerts (STATIP, PAGE0, 0x82; datasheet Table 36).
#[derive(Copy, Clone, Eq, PartialEq, Structural, Debug)]
pub struct IPAlerts {
    byte: u8,
}

impl View for IPAlerts {
    type V = u8;

    closed spec fn view(&self) -> u8 {
        self.byte
    }
}

impl IPAlerts {
    /// The register with every bit clear.
    pub fn new() -> (register: Self)
        ensures
            register@ == 0,
    {
        IPAlerts { byte: 0 }
    }

    /// The register that holds `bytes[0]`, reserved bits included.
    pub fn from_bytes(bytes: [u8; 1]) -> (register: Self)
        ensures
            register@ == bytes[0],
    {
        IPAlerts { byte: bytes[0] }
    }

    /// The byte of the register, reserved bits included.
    pub fn into_bytes(self) -> (bytes: [u8; 1])
        ensures
            bytes@ == seq![self@],
    {
        let bytes = [self.byte];
        proof {
            assert(bytes@ =~= seq![self@]);
        }
        bytes
    }

    /// Whether the `i1h` bit is set.
    pub open spec fn spec_i1h(&self) -> bool {
        bit(self@, 0)
    }

    /// I1H: Current1 high threshold exceeded.
    #[verifier::when_used_as_spec(spec_i1h)]
    pub fn i1h(&self) -> (value: bool)
        ensures
            value == self.spec_i1h(),
    {
        get_bit(self.byte, 0)
    }

    /// The register with the `i1h` bit set to `value`.
    pub fn with_i1h(self, value: bool) -> (register: Self)
        ensures
            register@ == with_bit(self@, 0, value),
            register.i1h() == value,
    {
        proof {
            with_bit_changes_one_bit(self.byte, 0, value, 0);
        }
        IPAlerts { byte: set_bit(self.byte, 0, value) }
    }

    /// Whether the `i1l` bit is set.
    pub open spec fn spec_i1l(&self) -> bool {
        bit(self@, 1)
    }

    /// I1L: Current1 low threshold exceeded.
    #[verifier::when_used_as_spec(spec_i1l)]
    pub fn i1l(&self) -> (value: bool)
        ensures
            value == self.spec_i1l(),
    {
        get_bit(self.byte, 1)
    }

    /// The register with the `i1l` bit set to `value`.
    pub fn with_i1l(self, value: bool) -> (register: Self)
        ensures
            register@ == with_bit(self@, 1, value),
            register.i1l() == value,
    {
        proof {
            with_bit_changes_one_bit(self.byte, 1, value, 1);
        }
        IPAlerts { byte: set_bit(self.byte, 1, value) }
    }

    /// Whether the `p1h` bit is set.
    pub open spec fn spec_p1h(&self) -> bool {
        bit(self@, 2)
    }

    /// P1H: Power1 high threshold exceeded.
    #[verifier::when_used_as_spec(spec_p1h)]
    pub fn p1h(&self) -> (value: bool)
        ensures
            value == self.spec_p1h(),
    {
        get_bit(self.byte, 2)
    }

    /// The register with the `p1h` bit set to `value`.
    pub fn with_p1h(self, value: bool) -> (register: Self)
        ensures
            register@ == with_bit(self@, 2, value),
            register.p1h() == value,
    {
        proof {
            with_bit_changes_one_bit(self.byte, 2, value, 2);
        }
        IPAlerts { byte: set_bit(self.byte, 2, value) }
    }

    /// Whether the `p1l` bit is set.
    pub open spec fn spec_p1l(&self) -> bool {
        bit(self@, 3)
    }

    /// P1L: Power1 low threshold exceeded.
    #[verifier::when_used_as_spec(spec_p1l)]
    pub fn p1l(&self) -> (value: bool)
        ensures
            value == self.spec_p1l(),
    {
        get_bit(self.byte, 3)
    }

    /// The register with the `p1l` bit set to `value`.
    pub fn with_p1l(self, value: bool) -> (register: Self)
        ensures
            register@ == with_bit(self@, 3, value),
            register.p1l() == value,
    {
        proof {
            with_bit_changes_one_bit(self.byte, 3, value, 3);
        }
        IPAlerts { byte: set_bit(self.byte, 3, value) }
    }

    /// Whether the `i2h` bit is set.
    pub open spec fn spec_i2h(&self) -> bool {
        bit(self@, 4)
    }

    /// I2H: Current2 high threshold exceeded.
    #[verifier::when_used_as_spec(spec_i2h)]
    pub fn i2h(&self) -> (value: bool)
        ensures
            value == self.spec_i2h(),
    {
        get_bit(self.byte, 4)
    }

    /// The register with the `i2h` bit set to `value`.
    pub fn with_i2h(self, value: bool) -> (register: Self)
        ensures
            register@ == with_bit(self@, 4, value),
            register.i2h() == value,
    {
        proof {
            with_bit_changes_one_bit(self.byte, 4, value, 4);
        }
        IPAlerts { byte: set_bit(self.byte, 4, value) }
    }

    /// Whether the `i2l` bit is set.
    pub open spec fn spec_i2l(&self) -> bool {
        bit(self@, 5)
    }

    /// I2L: Current2 low threshold exceeded.
    #[verifier::when_used_as_spec(spec_i2l)]
    pub fn i2l(&self) -> (value: bool)
        ensures
            value == self.spec_i2l(),
    {
        get_bit(self.byte, 5)
    }

    /// The register with the `i2l` bit set to `value`.
    pub fn with_i2l(self, value: bool) -> (register: Self)
        ensures
            register@ == with_bit(self@, 5, value),
            register.i2l() == value,
    {
        proof {
            with_bit_changes_one_bit(self.byte, 5, value, 5);
        }
        IPAlerts { byte: set_bit(self.byte, 5, value) }
    }

    /// Whether the `p2h` bit is set.
    pub open spec fn spec_p2h(&self) -> bool {
        bit(self@, 6)
    }

    /// P2H: Power2 high threshold exceeded.
    #[verifier::when_used_as_spec(spec_p2h)]
    pub fn p2h(&self) -> (value: bool)
        ensures
            value == self.spec_p2h(),
    {
        get_bit(self.byte, 6)
    }

    /// The register with the `p2h` bit set to `value`.
    pub fn with_p2h(self, value: bool) -> (register: Self)
        ensures
            register@ == with_bit(self@, 6, value),
            register.p2h() == value,
    {
        proof {
            with_bit_changes_one_bit(self.byte, 6, value, 6);
        }
        IPAlerts { byte: set_bit(self.byte, 6, value) }
    }

    /// Whether the `p2l` bit is set.
    pub open spec fn spec_p2l(&self) -> bool {
        bit(self@, 7)
    }

    /// P2L: Power2 low threshold exceeded.
    #[verifier::when_used_as_spec(spec_p2l)]
    pub fn p2l(&self) -> (value: bool)
        ensures
            value == self.spec_p2l(),
    {
        get_bit(self.byte, 7)
    }

    /// The register with the `p2l` bit set to `value`.
    pub fn with_p2l(self, value: bool) -> (register: Self)
        ensures
            register@ == with_bit(self@, 7, value),
            register.p2l() == value,
    {
        proof {
            with_bit_changes_one_bit(self.byte, 7, value, 7);
        }
        IPAlerts { byte: set_bit(self.byte, 7, value) }
    }
}

/// Charge threshold alerts (STATC, PAGE0, 0x83; datasheet Table 37).
#[derive(Copy, Clone, Eq, PartialEq, Structural, Debug)]
pub struct CAlerts {
    byte: u8,
}

impl View for CAlerts {
    type V = u8;

    closed spec fn view(&self) -> u8 {
        self.byte
    }
}

impl CAlerts {
    /// The register with every bit clear.
    pub fn new() -> (register: Self)
        ensures
            register@ == 0,
    {
        CAlerts { byte: 0 }
    }

    /// The register that holds `bytes[0]`, reserved bits included.
    pub fn from_bytes(bytes: [u8; 1]) -> (register: Self)
        ensures
            register@ == bytes[0],
    {
        CAlerts { byte: bytes[0] }
    }

    /// The byte of the register, reserved bits included.
    pub fn into_bytes(self) -> (bytes: [u8; 1])
        ensures
            bytes@ == seq![self@],
    {
        let bytes = [self.byte];
        proof {
            assert(bytes@ =~= seq![self@]);
        }
        bytes
    }

    /// Whether the `c1h` bit is set.
    pub open spec fn spec_c1h(&self) -> bool {
        bit(self@, 0)
    }

    /// C1H: Charge1 high threshold exceeded.
    #[verifier::when_used_as_spec(spec_c1h)]
    pub fn c1h(&self) -> (value: bool)
        ensures
            value == self.spec_c1h(),
    {
        get_bit(self.byte, 0)
    }

    /// The register with the `c1h` bit set to `value`.
    pub fn with_c1h(self, value: bool) -> (register: Self)
        ensures
            register@ == with_bit(self@, 0, value),
            register.c1h() == value,
    {
        proof {
            with_bit_changes_one_bit(self.byte, 0, value, 0);
        }
        CAlerts { byte: set_bit(self.byte, 0, value) }
    }

    /// Whether the `c1l` bit is set.
    pub open spec fn spec_c1l(&self) -> bool {
        bit(self@, 1)
    }

    /// C1L: Charge1 low threshold exceeded.
    #[verifier::when_used_as_spec(spec_c1l)]
    pub fn c1l(&self) -> (value: bool)
        ensures
            value == self.spec_c1l(),
    {
        get_bit(self.byte, 1)
    }

    /// The register with the `c1l` bit set to `value`.
    pub fn with_c1l(self, value: bool) -> (register: Self)
        ensures
            register@ == with_bit(self@, 1, value),
            register.c1l() == value,
    {
        proof {
            with_bit_changes_one_bit(self.byte, 1, value, 1);
        }
        CAlerts { byte: set_bit(self.byte, 1, value) }
    }

    /// Whether the `c2h` bit is set.
    pub open spec fn spec_c2h(&self) -> bool {
        bit(self@, 2)
    }

    /// C2H: Charge2 high threshold exceeded.
    #[verifier::when_used_as_spec(spec_c2h)]
    pub fn c2h(&self) -> (value: bool)
        ensures
            value == self.spec_c2h(),
    {
        get_bit(self.byte, 2)
    }

    /// The register with the `c2h` bit set to `value`.
    pub fn with_c2h(self, value: bool) -> (register: Self)
        ensures
            register@ == with_bit(self@, 2, value),
            register.c2h() == value,
    {
        proof {
            with_bit_changes_one_bit(self.byte, 2, value, 2);
        }
        CAlerts { byte: set_bit(self.byte, 2, value) }
    }

    /// Whether the `c2l` bit is set.
    pub open spec fn spec_c2l(&self) -> bool {
        bit(self@, 3)
    }

    /// C2L: Charge2 low threshold exceeded.
    #[verifier::when_used_as_spec(spec_c2l)]
    pub fn c2l(&self) -> (value: bool)
        ensures
            value == self.spec_c2l(),
    {
        get_bit(self.byte, 3)
    }

    /// The register with the `c2l` bit set to `value`.
    pub fn with_c2l(self, value: bool) -> (register: Self)
        ensures
            register@ == with_bit(self@, 3, value),
            register.c2l() == value,
    {
        proof {
            with_bit_changes_one_bit(self.byte, 3, value, 3);
        }
        CAlerts { byte: set_bit(self.byte, 3, value) }
    }

    /// Whether the `c3h` bit is set.
    pub open spec fn spec_c3h(&self) -> bool {
        bit(self@, 4)
    }

    /// C3H: Charge3 high threshold exceeded.
    #[verifier::when_used_as_spec(spec_c3h)]
    pub fn c3h(&self) -> (value: bool)
        ensures
            value == self.spec_c3h(),
    {
        get_bit(self.byte, 4)
    }

    /// The register with the `c3h` bit set to `value`.
    pub fn with_c3h(self, value: bool) -> (register: Self)
        ensures
            register@ == with_bit(self@, 4, value),
            register.c3h() == value,
    {
        proof {
            with_bit_changes_one_bit(self.byte, 4, value, 4);
        }
        CAlerts { byte: set_bit(self.byte, 4, value) }
    }

    /// Whether the `c3l` bit is set.
    pub open spec fn spec_c3l(&self) -> bool {
        bit(self@, 5)
    }

    /// C3L: Charge3 low threshold exceeded.
    #[verifier::when_used_as_spec(spec_c3l)]
    pub fn c3l(&self) -> (value: bool)
        ensures
            value == self.spec_c3l(),
    {
        get_bit(self.byte, 5)
    }

    /// The register with the `c3l` bit set to `value`.
    pub fn with_c3l(self, value: bool) -> (register: Self)
        ensures
            register@ == with_bit(self@, 5, value),
            register.c3l() == value,
    {
        proof {
            with_bit_changes_one_bit(self.byte, 5, value, 5);
        }
        CAlerts { byte: set_bit(self.byte, 5, value) }
    }
}

/// Energy threshold alerts (STATE, PAGE0, 0x84; datasheet Table 38).
#[derive(Copy, Clone, Eq, PartialEq, Structural, Debug)]
pub struct EAlerts {
    byte: u8,
}

impl View for EAlerts {
    type V = u8;

    closed spec fn view(&self) -> u8 {
        self.byte
    }
}

impl EAlerts {
    /// The register with every bit clear.
    pub fn new() -> (register: Self)
        ensures
            register@ == 0,
    {
        EAlerts { byte: 0 }
    }

    /// The register that holds `bytes[0]`, reserved bits included.
    pub fn from_bytes(bytes: [u8; 1]) -> (register: Self)
        ensures
            register@ == bytes[0],
    {
        EAlerts { byte: bytes[0] }
    }

    /// The byte of the register, reserved bits included.
    pub fn into_bytes(self) -> (bytes: [u8; 1])
        ensures
            bytes@ == seq![self@],
    {
        let bytes = [self.byte];
        proof {
            assert(bytes@ =~= seq![self@]);
        }
        bytes
    }

    /// Whether the `e1h` bit is set.
    pub open spec fn spec_e1h(&self) -> bool {
        bit(self@, 0)
    }

    /// E1H: Energy1 high threshold exceeded.
    #[verifier::when_used_as_spec(spec_e1h)]
    pub fn e1h(&self) -> (value: bool)
        ensures
            value == self.spec_e1h(),
    {
        get_bit(self.byte, 0)
    }

    /// The register with the `e1h` bit set to `value`.
    pub fn with_e1h(self, value: bool) -> (register: Self)
        ensures
            register@ == with_bit(self@, 0, value),
            register.e1h() == value,
    {
        proof {
            with_bit_changes_one_bit(self.byte, 0, value, 0);
        }
        EAlerts { byte: set_bit(self.byte, 0, value) }
    }

    /// Whether the `e1l` bit is set.
    pub open spec fn spec_e1l(&self) -> bool {
        bit(self@, 1)
    }

    /// E1L: Energy1 low threshold exceeded.
    #[verifier::when_used_as_spec(spec_e1l)]
    pub fn e1l(&self) -> (value: bool)
        ensures
            value == self.spec_e1l(),
    {
        get_bit(self.byte, 1)
    }

    /// The register with the `e1l` bit set to `value`.
    pub fn with_e1l(self, value: bool) -> (register: Self)
        ensures
            register@ == with_bit(self@, 1, value),
            register.e1l() == value,
    {
        proof {
            with_bit_changes_one_bit(self.byte, 1, value, 1);
        }
        EAlerts { byte: set_bit(self.byte, 1, value) }
    }

    /// Whether the `e2h` bit is set.
    pub open spec fn spec_e2h(&self) -> bool {
        bit(self@, 2)
    }

    /// E2H: Energy2 high threshold exceeded.
    #[verifier::when_used_as_spec(spec_e2h)]
    pub fn e2h(&self) -> (value: bool)
        ensures
            value == self.spec_e2h(),
    {
        get_bit(self.byte, 2)
    }

    /// The register with the `e2h` bit set to `value`.
    pub fn with_e2h(self, value: bool) -> (register: Self)
        ensures
            register@ == with_bit(self@, 2, value),
            register.e2h() == value,
    {
        proof {
            with_bit_changes_one_bit(self.byte, 2, value, 2);
        }
        EAlerts { byte: set_bit(self.byte, 2, value) }
    }

    /// Whether the `e2l` bit is set.
    pub open spec fn spec_e2l(&self) -> bool {
        bit(self@, 3)
    }

    /// E2L: Energy2 low threshold exceeded.
    #[verifier::when_used_as_spec(spec_e2l)]
    pub fn e2l(&self) -> (value: bool)
        ensures
            value == self.spec_e2l(),
    {
        get_bit(self.byte, 3)
    }

    /// The register with the `e2l` bit set to `value`.
    pub fn with_e2l(self, value: bool) -> (register: Self)
        ensures
            register@ == with_bit(self@, 3, value),
            register.e2l() == value,
    {
        proof {
            with_bit_changes_one_bit(self.byte, 3, value, 3);
        }
        EAlerts { byte: set_bit(self.byte, 3, value) }
    }

    /// Whether the `e4h` bit is set.
    pub open spec fn spec_e4h(&self) -> bool {
        bit(self@, 6)
    }

    /// E4H: Energy4 high threshold exceeded.
    #[verifier::when_used_as_spec(spec_e4h)]
    pub fn e4h(&self) -> (value: bool)
        ensures
            value == self.spec_e4h(),
    {
        get_bit(self.byte, 6)
    }

    /// The register with the `e4h` bit set to `value`.
    pub fn with_e4h(self, value: bool) -> (register: Self)
        ensures
            register@ == with_bit(self@, 6, value),
            register.e4h() == value,
    {
        proof {
            with_bit_changes_one_bit(self.byte, 6, value, 6);
        }
        EAlerts { byte: set_bit(self.byte, 6, value) }
    }

    /// Whether the `e4l` bit is set.
    pub open spec fn spec_e4l(&self) -> bool {
        bit(self@, 7)
    }

    /// E4L: Energy4 low threshold exceeded.
    #[verifier::when_used_as_spec(spec_e4l)]
    pub fn e4l(&self) -> (value: bool)
        ensures
            value == self.spec_e4l(),
    {
        get_bit(self.byte, 7)
    }

    /// The register with the `e4l` bit set to `value`.
    pub fn with_e4l(self, value: bool) -> (register: Self)
        ensures
            register@ == with_bit(self@, 7, value),
            register.e4l() == value,
    {
        proof {
            with_bit_changes_one_bit(self.byte, 7, value, 7);
        }
        EAlerts { byte: set_bit(self.byte, 7, value) }
    }
}

/// Charge and energy overflow alerts (STATCEOF, PAGE0, 0x85; datasheet Table 39).
#[derive(Copy, Clone, Eq, PartialEq, Structural, Debug)]
pub struct CEOFAlerts {
    byte: u8,
}

impl View for CEOFAlerts {
    type V = u8;

    closed spec fn view(&self) -> u8 {
        self.byte
    }
}

impl CEOFAlerts {
    /// The register with every bit clear.
    pub fn new() -> (register: Self)
        ensures
            register@ == 0,
    {
        CEOFAlerts { byte: 0 }
    }

    /// The register that holds `bytes[0]`, reserved bits included.
    pub fn from_bytes(bytes: [u8; 1]) -> (register: Self)
        ensures
            register@ == bytes[0],
    {
        CEOFAlerts { byte: bytes[0] }
    }

    /// The byte of the register, reserved bits included.
    pub fn into_bytes(self) -> (bytes: [u8; 1])
        ensures
            bytes@ == seq![self@],
    {
        let bytes = [self.byte];
        proof {
            assert(bytes@ =~= seq![self@]);
        }
        bytes
    }

    /// Whether the `c1ovf` bit is set.
    pub open spec fn spec_c1ovf(&self) -> bool {
        bit(self@, 0)
    }

    /// C1OVF: Charge1 accumulator overflowed.
    #[verifier::when_used_as_spec(spec_c1ovf)]
    pub fn c1ovf(&self) -> (value: bool)
        ensures
            value == self.spec_c1ovf(),
    {
        get_bit(self.byte, 0)
    }

    /// The register with the `c1ovf` bit set to `value`.
    pub fn with_c1ovf(self, value: bool) -> (register: Self)
        ensures
            register@ == with_bit(self@, 0, value),
            register.c1ovf() == value,
    {
        proof {
            with_bit_changes_one_bit(self.byte, 0, value, 0);
        }
        CEOFAlerts { byte: set_bit(self.byte, 0, value) }
    }

    /// Whether the `c2ovf` bit is set.
    pub open spec fn spec_c2ovf(&self) -> bool {
        bit(self@, 1)
    }

    /// C2OVF: Charge2 accumulator overflowed.
    #[verifier::when_used_as_spec(spec_c2ovf)]
    pub fn c2ovf(&self) -> (value: bool)
        ensures
            value == self.spec_c2ovf(),
    {
        get_bit(self.byte, 1)
    }

    /// The register with the `c2ovf` bit set to `value`.
    pub fn with_c2ovf(self, value: bool) -> (register: Self)
        ensures
            register@ == with_bit(self@, 1, value),
            register.c2ovf() == value,
    {
        proof {
            with_bit_changes_one_bit(self.byte, 1, value, 1);
        }
        CEOFAlerts { byte: set_bit(self.byte, 1, value) }
    }

    /// Whether the `c3ovf` bit is set.
    pub open spec fn spec_c3ovf(&self) -> bool {
        bit(self@, 2)
    }

    /// C3OVF: Charge3 accumulator overflowed.
    #[verifier::when_used_as_spec(spec_c3ovf)]
    pub fn c3ovf(&self) -> (value: bool)
        ensures
            value == self.spec_c3ovf(),
    {
        get_bit(self.byte, 2)
    }

    /// The register with the `c3ovf` bit set to `value`.
    pub fn with_c3ovf(self, value: bool) -> (register: Self)
        ensures
            register@ == with_bit(self@, 2, value),
            register.c3ovf() == value,
    {
        proof {
            with_bit_changes_one_bit(self.byte, 2, value, 2);
        }
        CEOFAlerts { byte: set_bit(self.byte, 2, value) }
    }

    /// Whether the `e1ovf` bit is set.
    pub open spec fn spec_e1ovf(&self) -> bool {
        bit(self@, 4)
    }

    /// E1OVF: Energy1 accumulator overflowed.
    #[verifier::when_used_as_spec(spec_e1ovf)]
    pub fn e1ovf(&self) -> (value: bool)
        ensures
            value == self.spec_e1ovf(),
    {
        get_bit(self.byte, 4)
    }

    /// The register with the `e1ovf` bit set to `value`.
    pub fn with_e1ovf(self, value: bool) -> (register: Self)
        ensures
            register@ == with_bit(self@, 4, value),
            register.e1ovf() == value,
    {
        proof {
            with_bit_changes_one_bit(self.byte, 4, value, 4);
        }
        CEOFAlerts { byte: set_bit(self.byte, 4, value) }
    }

    /// Whether the `e2ovf` bit is set.
    pub open spec fn spec_e2ovf(&self) -> bool {
        bit(self@, 5)
    }

    /// E2OVF: Energy2 accumulator overflowed.
    #[verifier::when_used_as_spec(spec_e2ovf)]
    pub fn e2ovf(&self) -> (value: bool)
        ensures
            value == self.spec_e2ovf(),
    {
        get_bit(self.byte, 5)
    }

    /// The register with the `e2ovf` bit set to `value`.
    pub fn with_e2ovf(self, value: bool) -> (register: Self)
        ensures
            register@ == with_bit(self@, 5, value),
            register.e2ovf() == value,
    {
        proof {
            with_bit_changes_one_bit(self.byte, 5, value, 5);
        }
        CEOFAlerts { byte: set_bit(self.byte, 5, value) }
    }

    /// Whether the `e4ovf` bit is set.
    pub open spec fn spec_e4ovf(&self) -> bool {
        bit(self@, 7)
    }

    /// E4OVF: Energy4 accumulator overflowed.
    #[verifier::when_used_as_spec(spec_e4ovf)]
    pub fn e4ovf(&self) -> (value: bool)
        ensures
            value == self.spec_e4ovf(),
    {
        get_bit(self.byte, 7)
    }

    /// The register with the `e4ovf` bit set to `value`.
    pub fn with_e4ovf(self, value: bool) -> (register: Self)
        ensures
            register@ == with_bit(self@, 7, value),
            register.e4ovf() == value,
    {
        proof {
            with_bit_changes_one_bit(self.byte, 7, value, 7);
        }
        CEOFAlerts { byte: set_bit(self.byte, 7, value) }
    }
}

/// Time-base threshold and overflow alerts (STATTB, PAGE0, 0x86; datasheet Table 40).
#[derive(Copy, Clone, Eq, PartialEq, Structural, Debug)]
pub struct TBAlerts {
    byte: u8,
}

impl View for TBAlerts {
    type V = u8;

    closed spec fn view(&self) -> u8 {
        self.byte
    }
}

impl TBAlerts {
    /// The register with every bit clear.
    pub fn new() -> (register: Self)
        ensures
            register@ == 0,
    {
        TBAlerts { byte: 0 }
    }

    /// The register that holds `bytes[0]`, reserved bits included.
    pub fn from_bytes(bytes: [u8; 1]) -> (register: Self)
        ensures
            register@ == bytes[0],
    {
        TBAlerts { byte: bytes[0] }
    }

    /// The byte of the register, reserved bits included.
    pub fn into_bytes(self) -> (bytes: [u8; 1])
        ensures
            bytes@ == seq![self@],
    {
        let bytes = [self.byte];
        proof {
            assert(bytes@ =~= seq![self@]);
        }
        bytes
    }

    /// Whether the `t1th` bit is set.
    pub open spec fn spec_t1th(&self) -> bool {
        bit(self@, 0)
    }

    /// T1TH: Time1 threshold exceeded.
    #[verifier::when_used_as_spec(spec_t1th)]
    pub fn t1th(&self) -> (value: bool)
        ensures
            value == self.spec_t1th(),
    {
        get_bit(self.byte, 0)
    }

    /// The register with the `t1th` bit set to `value`.
    pub fn with_t1th(self, value: bool) -> (register: Self)
        ensures
            register@ == with_bit(self@, 0, value),
            register.t1th() == value,
    {
        proof {
            with_bit_changes_one_bit(self.byte, 0, value, 0);
        }
        TBAlerts { byte: set_bit(self.byte, 0, value) }
    }

    /// Whether the `t2th` bit is set.
    pub open spec fn spec_t2th(&self) -> bool {
        bit(self@, 1)
    }

    /// T2TH: Time2 threshold exceeded.
    #[verifier::when_used_as_spec(spec_t2th)]
    pub fn t2th(&self) -> (value: bool)
        ensures
            value == self.spec_t2th(),
    {
        get_bit(self.byte, 1)
    }

    /// The register with the `t2th` bit set to `value`.
    pub fn with_t2th(self, value: bool) -> (register: Self)
        ensures
            register@ == with_bit(self@, 1, value),
            register.t2th() == value,
    {
        proof {
            with_bit_changes_one_bit(self.byte, 1, value, 1);
        }
        TBAlerts { byte: set_bit(self.byte, 1, value) }
    }

    /// Whether the `t3th` bit is set.
    pub open spec fn spec_t3th(&self) -> bool {
        bit(self@, 2)
    }

    /// T3TH: Time3 threshold exceeded.
    #[verifier::when_used_as_spec(spec_t3th)]
    pub fn t3th(&self) -> (value: bool)
        ensures
            value == self.spec_t3th(),
    {
        get_bit(self.byte, 2)
    }

    /// The register with the `t3th` bit set to `value`.
    pub fn with_t3th(self, value: bool) -> (register: Self)
        ensures
            register@ == with_bit(self@, 2, value),
            register.t3th() == value,
    {
        proof {
            with_bit_changes_one_bit(self.byte, 2, value, 2);
        }
        TBAlerts { byte: set_bit(self.byte, 2, value) }
    }

    /// Whether the `t4th` bit is set.
    pub open spec fn spec_t4th(&self) -> bool {
        bit(self@, 3)
    }

    /// T4TH: Time4 threshold exceeded.
    #[verifier::when_used_as_spec(spec_t4th)]
    pub fn t4th(&self) -> (value: bool)
        ensures
            value == self.spec_t4th(),
    {
        get_bit(self.byte, 3)
    }

    /// The register with the `t4th` bit set to `value`.
    pub fn with_t4th(self, value: bool) -> (register: Self)
        ensures
            register@ == with_bit(self@, 3, value),
            register.t4th() == value,
    {
        proof {
            with_bit_changes_one_bit(self.byte, 3, value, 3);
        }
        TBAlerts { byte: set_bit(self.byte, 3, value) }
    }

    /// Whether the `t1ovf` bit is set.
    pub open spec fn spec_t1ovf(&self) -> bool {
        bit(self@, 4)
    }

    /// T1OVF: Time1 overflowed.
    #[verifier::when_used_as_spec(spec_t1ovf)]
    pub fn t1ovf(&self) -> (value: bool)
        ensures
            value == self.spec_t1ovf(),
    {
        get_bit(self.byte, 4)
    }

    /// The register with the `t1ovf` bit set to `value`.
    pub fn with_t1ovf(self, value: bool) -> (register: Self)
        ensures
            register@ == with_bit(self@, 4, value),
            register.t1ovf() == value,
    {
        proof {
            with_bit_changes_one_bit(self.byte, 4, value, 4);
        }
        TBAlerts { byte: set_bit(self.byte, 4, value) }
    }

    /// Whether the `t2ovf` bit is set.
    pub open spec fn spec_t2ovf(&self) -> bool {
        bit(self@, 5)
    }

    /// T2OVF: Time2 overflowed.
    #[verifier::when_used_as_spec(spec_t2ovf)]
    pub fn t2ovf(&self) -> (value: bool)
        ensures
            value == self.spec_t2ovf(),
    {
        get_bit(self.byte, 5)
    }

    /// The register with the `t2ovf` bit set to `value`.
    pub fn with_t2ovf(self, value: bool) -> (register: Self)
        ensures
            register@ == with_bit(self@, 5, value),
            register.t2ovf() == value,
    {
        proof {
            with_bit_changes_one_bit(self.byte, 5, value, 5);
        }
        TBAlerts { byte: set_bit(self.byte, 5, value) }
    }

    /// Whether the `t3ovf` bit is set.
    pub open spec fn spec_t3ovf(&self) -> bool {
        bit(self@, 6)
    }

    /// T3OVF: Time3 overflowed.
    #[verifier::when_used_as_spec(spec_t3ovf)]
    pub fn t3ovf(&self) -> (value: bool)
        ensures
            value == self.spec_t3ovf(),
    {
        get_bit(self.byte, 6)
    }

    /// The register with the `t3ovf` bit set to `value`.
    pub fn with_t3ovf(self, value: bool) -> (register: Self)
        ensures
            register@ == with_bit(self@, 6, value),
            register.t3ovf() == value,
    {
        proof {
            with_bit_changes_one_bit(self.byte, 6, value, 6);
        }
        TBAlerts { byte: set_bit(self.byte, 6, value) }
    }

    /// Whether the `t4ovf` bit is set.
    pub open spec fn spec_t4ovf(&self) -> bool {
        bit(self@, 7)
    }

    /// T4OVF: Time4 overflowed.
    #[verifier::when_used_as_spec(spec_t4ovf)]
    pub fn t4ovf(&self) -> (value: bool)
        ensures
            value == self.spec_t4ovf(),
    {
        get_bit(self.byte, 7)
    }

    /// The register with the `t4ovf` bit set to `value`.
    pub fn with_t4ovf(self, value: bool) -> (register: Self)
        ensures
            register@ == with_bit(self@, 7, value),
            register.t4ovf() == value,
    {
        proof {
            with_bit_changes_one_bit(self.byte, 7, value, 7);
        }
        TBAlerts { byte: set_bit(self.byte, 7, value) }
    }
}

/// VCC and overcurrent-comparator alerts (STATVCC, PAGE0, 0x87; datasheet Table 41).
#[derive(Copy, Clone, Eq, PartialEq, Structural, Debug)]
pub struct VCCAlerts {
    byte: u8,
}

impl View for VCCAlerts {
    type V = u8;

    closed spec fn view(&self) -> u8 {
        self.byte
    }
}

impl VCCAlerts {
    /// The register with every bit clear.
    pub fn new() -> (register: Self)
        ensures
            register@ == 0,
    {
        VCCAlerts { byte: 0 }
    }

    /// The register that holds `bytes[0]`, reserved bits included.
    pub fn from_bytes(bytes: [u8; 1]) -> (register: Self)
        ensures
            register@ == bytes[0],
    {
        VCCAlerts { byte: bytes[0] }
    }

    /// The byte of the register, reserved bits included.
    pub fn into_bytes(self) -> (bytes: [u8; 1])
        ensures
            bytes@ == seq![self@],
    {
        let bytes = [self.byte];
        proof {
            assert(bytes@ =~= seq![self@]);
        }
        bytes
    }

    /// Whether the `vcch` bit is set.
    pub open spec fn spec_vcch(&self) -> bool {
        bit(self@, 0)
    }

    /// VCCH: VCC high threshold exceeded.
    #[verifier::when_used_as_spec(spec_vcch)]
    pub fn vcch(&self) -> (value: bool)
        ensures
            value == self.spec_vcch(),
    {
        get_bit(self.byte, 0)
    }

    /// The register with the `vcch` bit set to `value`.
    pub fn with_vcch(self, value: bool) -> (register: Self)
        ensures
            register@ == with_bit(self@, 0, value),
            register.vcch() == value,
    {
        proof {
            with_bit_changes_one_bit(self.byte, 0, value, 0);
        }
        VCCAlerts { byte: set_bit(self.byte, 0, value) }
    }

    /// Whether the `vccl` bit is set.
    pub open spec fn spec_vccl(&self) -> bool {
        bit(self@, 1)
    }

    /// VCCL: VCC low threshold exceeded.
    #[verifier::when_used_as_spec(spec_vccl)]
    pub fn vccl(&self) -> (value: bool)
        ensures
            value == self.spec_vccl(),
    {
        get_bit(self.byte, 1)
    }

    /// The register with the `vccl` bit set to `value`.
    pub fn with_vccl(self, value: bool) -> (register: Self)
        ensures
            register@ == with_bit(self@, 1, value),
            register.vccl() == value,
    {
        proof {
            with_bit_changes_one_bit(self.byte, 1, value, 1);
        }
        VCCAlerts { byte: set_bit(self.byte, 1, value) }
    }

    /// Whether the `occ1h` bit is set.
    pub open spec fn spec_occ1h(&self) -> bool {
        bit(self@, 2)
    }

    /// OCC1H: Current1 remained above the OCC1 threshold for longer than its deglitch time.
    #[verifier::when_used_as_spec(spec_occ1h)]
    pub fn occ1h(&self) -> (value: bool)
        ensures
            value == self.spec_occ1h(),
    {
        get_bit(self.byte, 2)
    }

    /// The register with the `occ1h` bit set to `value`.
    pub fn with_occ1h(self, value: bool) -> (register: Self)
        ensures
            register@ == with_bit(self@, 2, value),
            register.occ1h() == value,
    {
        proof {
            with_bit_changes_one_bit(self.byte, 2, value, 2);
        }
        VCCAlerts { byte: set_bit(self.byte, 2, value) }
    }

    /// Whether the `occ2h` bit is set.
    pub open spec fn spec_occ2h(&self) -> bool {
        bit(self@, 3)
    }

    /// OCC2H: Current2 remained above the OCC2 threshold for longer than its deglitch time.
    #[verifier::when_used_as_spec(spec_occ2h)]
    pub fn occ2h(&self) -> (value: bool)
        ensures
            value == self.spec_occ2h(),
    {
        get_bit(self.byte, 3)
    }

    /// The register with the `occ2h` bit set to `value`.
    pub fn with_occ2h(self, value: bool) -> (register: Self)
        ensures
            register@ == with_bit(self@, 3, value),
            register.occ2h() == value,
    {
        proof {
            with_bit_changes_one_bit(self.byte, 3, value, 3);
        }
        VCCAlerts { byte: set_bit(self.byte, 3, value) }
    }
}

/// Fault register (PAGE0, 0xDD; datasheet Table 28).
#[derive(Copy, Clone, Eq, PartialEq, Structural, Debug)]
pub struct FaultsRegister {
    byte: u8,
}

impl View for FaultsRegister {
    type V = u8;

    closed spec fn view(&self) -> u8 {
        self.byte
    }
}

impl FaultsRegister {
    /// The register with every bit clear.
    pub fn new() -> (register: Self)
        ensures
            register@ == 0,
    {
        FaultsRegister { byte: 0 }
    }

    /// The register that holds `bytes[0]`, reserved bits included.
    pub fn from_bytes(bytes: [u8; 1]) -> (register: Self)
        ensures
            register@ == bytes[0],
    {
        FaultsRegister { byte: bytes[0] }
    }

    /// The byte of the register, reserved bits included.
    pub fn into_bytes(self) -> (bytes: [u8; 1])
        ensures
            bytes@ == seq![self@],
    {
        let bytes = [self.byte];
        proof {
            assert(bytes@ =~= seq![self@]);
        }
        bytes
    }

    /// Whether the `promerr` bit is set.
    pub open spec fn spec_promerr(&self) -> bool {
        bit(self@, 0)
    }

    /// PROMERR: PROM read error occurred.
    #[verifier::when_used_as_spec(spec_promerr)]
    pub fn promerr(&self) -> (value: bool)
        ensures
            value == self.spec_promerr(),
    {
        get_bit(self.byte, 0)
    }

    /// The register with the `promerr` bit set to `value`.
    pub fn with_promerr(self, value: bool) -> (register: Self)
        ensures
            register@ == with_bit(self@, 0, value),
            register.promerr() == value,
    {
        proof {
            with_bit_changes_one_bit(self.byte, 0, value, 0);
        }
        FaultsRegister { byte: set_bit(self.byte, 0, value) }
    }

    /// Whether the `tsd` bit is set.
    pub open spec fn spec_tsd(&self) -> bool {
        bit(self@, 1)
    }

    /// TSD: thermal shutdown occurred.
    #[verifier::when_used_as_spec(spec_tsd)]
    pub fn tsd(&self) -> (value: bool)
        ensures
            value == self.spec_tsd(),
    {
        get_bit(self.byte, 1)
    }

    /// The register with the `tsd` bit set to `value`.
    pub fn with_tsd(self, value: bool) -> (register: Self)
        ensures
            register@ == with_bit(self@, 1, value),
            register.tsd() == value,
    {
        proof {
            with_bit_changes_one_bit(self.byte, 1, value, 1);
        }
        FaultsRegister { byte: set_bit(self.byte, 1, value) }
    }

    /// Whether the `intcommerr` bit is set.
    pub open spec fn spec_intcommerr(&self) -> bool {
        bit(self@, 2)
    }

    /// INTCOMMERR: internal communication error occurred.
    #[verifier::when_used_as_spec(spec_intcommerr)]
    pub fn intcommerr(&self) -> (value: bool)
        ensures
            value == self.spec_intcommerr(),
    {
        get_bit(self.byte, 2)
    }

    /// The register with the `intcommerr` bit set to `value`.
    pub fn with_intcommerr(self, value: bool) -> (register: Self)
        ensures
            register@ == with_bit(self@, 2, value),
            register.intcommerr() == value,
    {
        proof {
            with_bit_changes_one_bit(self.byte, 2, value, 2);
        }
        FaultsRegister { byte: set_bit(self.byte, 2, value) }
    }

    /// Whether the `extcommerr` bit is set.
    pub open spec fn spec_extcommerr(&self) -> bool {
        bit(self@, 3)
    }

    /// EXTCOMMERR: external communication error occurred.
    #[verifier::when_used_as_spec(spec_extcommerr)]
    pub fn extcommerr(&self) -> (value: bool)
        ensures
            value == self.spec_extcommerr(),
    {
        get_bit(self.byte, 3)
    }

    /// The register with the `extcommerr` bit set to `value`.
    pub fn with_extcommerr(self, value: bool) -> (register: Self)
        ensures
            register@ == with_bit(self@, 3, value),
            register.extcommerr() == value,
    {
        proof {
            with_bit_changes_one_bit(self.byte, 3, value, 3);
        }
        FaultsRegister { byte: set_bit(self.byte, 3, value) }
    }

    /// Whether the `faerr` bit is set.
    pub open spec fn spec_faerr(&self) -> bool {
        bit(self@, 4)
    }

    /// FAERR: fast-acquisition error occurred.
    #[verifier::when_used_as_spec(spec_faerr)]
    pub fn faerr(&self) -> (value: bool)
        ensures
            value == self.spec_faerr(),
    {
        get_bit(self.byte, 4)
    }

    /// The register with the `faerr` bit set to `value`.
    pub fn with_faerr(self, value: bool) -> (register: Self)
        ensures
            register@ == with_bit(self@, 4, value),
            register.faerr() == value,
    {
        proof {
            with_bit_changes_one_bit(self.byte, 4, value, 4);
        }
        FaultsRegister { byte: set_bit(self.byte, 4, value) }
    }

    /// Whether the `hwbist` bit is set.
    pub open spec fn spec_hwbist(&self) -> bool {
        bit(self@, 5)
    }

    /// HWBIST: hardware built-in self-test failed.
    #[verifier::when_used_as_spec(spec_hwbist)]
    pub fn hwbist(&self) -> (value: bool)
        ensures
            value == self.spec_hwbist(),
    {
        get_bit(self.byte, 5)
    }

    /// The register with the `hwbist` bit set to `value`.
    pub fn with_hwbist(self, value: bool) -> (register: Self)
        ensures
            register@ == with_bit(self@, 5, value),
            register.hwbist() == value,
    {
        proof {
            with_bit_changes_one_bit(self.byte, 5, value, 5);
        }
        FaultsRegister { byte: set_bit(self.byte, 5, value) }
    }

    /// Whether the `crccfg` bit is set.
    pub open spec fn spec_crccfg(&self) -> bool {
        bit(self@, 6)
    }

    /// CRCCFG: configuration CRC error occurred.
    #[verifier::when_used_as_spec(spec_crccfg)]
    pub fn crccfg(&self) -> (value: bool)
        ensures
            value == self.spec_crccfg(),
    {
        get_bit(self.byte, 6)
    }

    /// The register with the `crccfg` bit set to `value`.
    pub fn with_crccfg(self, value: bool) -> (register: Self)
        ensures
            register@ == with_bit(self@, 6, value),
            register.crccfg() == value,
    {
        proof {
            with_bit_changes_one_bit(self.byte, 6, value, 6);
        }
        FaultsRegister { byte: set_bit(self.byte, 6, value) }
    }

    /// Whether the `crcmem` bit is set.
    pub open spec fn spec_crcmem(&self) -> bool {
        bit(self@, 7)
    }

    /// CRCMEM: memory CRC error occurred.
    #[verifier::when_used_as_spec(spec_crcmem)]
    pub fn crcmem(&self) -> (value: bool)
        ensures
            value == self.spec_crcmem(),
    {
        get_bit(self.byte, 7)
    }

    /// The register with the `crcmem` bit set to `value`.
    pub fn with_crcmem(self, value: bool) -> (register: Self)
        ensures
            register@ == with_bit(self@, 7, value),
            register.crcmem() == value,
    {
        proof {
            with_bit_changes_one_bit(self.byte, 7, value, 7);
        }
        FaultsRegister { byte: set_bit(self.byte, 7, value) }
    }
}

/// Extended fault register (PAGE0, 0xDC; datasheet Table 33).
#[derive(Copy, Clone, Eq, PartialEq, Structural, Debug)]
pub struct ExtFaultsRegister {
    byte: u8,
}

impl View for ExtFaultsRegister {
    type V = u8;

    closed spec fn view(&self) -> u8 {
        self.byte
    }
}

impl ExtFaultsRegister {
    /// The register with every bit clear.
    pub fn new() -> (register: Self)
        ensures
            register@ == 0,
    {
        ExtFaultsRegister { byte: 0 }
    }

    /// The register that holds `bytes[0]`, reserved bits included.
    pub fn from_bytes(bytes: [u8; 1]) -> (register: Self)
        ensures
            register@ == bytes[0],
    {
        ExtFaultsRegister { byte: bytes[0] }
    }

    /// The byte of the register, reserved bits included.
    pub fn into_bytes(self) -> (bytes: [u8; 1])
        ensures
            bytes@ == seq![self@],
    {
        let bytes = [self.byte];
        proof {
            assert(bytes@ =~= seq![self@]);
        }
        bytes
    }

    /// Whether the `hd1biterr` bit is set.
    pub open spec fn spec_hd1biterr(&self) -> bool {
        bit(self@, 0)
    }

    /// HD1BITERR: Hamming decoder 1-bit error occurred.
    #[verifier::when_used_as_spec(spec_hd1biterr)]
    pub fn hd1biterr(&self) -> (value: bool)
        ensures
            value == self.spec_hd1biterr(),
    {
        get_bit(self.byte, 0)
    }

    /// The register with the `hd1biterr` bit set to `value`.
    pub fn with_hd1biterr(self, value: bool) -> (register: Self)
        ensures
            register@ == with_bit(self@, 0, value),
            register.hd1biterr() == value,
    {
        proof {
            with_bit_changes_one_bit(self.byte, 0, value, 0);
        }
        ExtFaultsRegister { byte: set_bit(self.byte, 0, value) }
    }

    /// Whether the `romerr` bit is set.
    pub open spec fn spec_romerr(&self) -> bool {
        bit(self@, 1)
    }

    /// ROMERR: ROM CRC error occurred.
    #[verifier::when_used_as_spec(spec_romerr)]
    pub fn romerr(&self) -> (value: bool)
        ensures
            value == self.spec_romerr(),
    {
        get_bit(self.byte, 1)
    }

    /// The register with the `romerr` bit set to `value`.
    pub fn with_romerr(self, value: bool) -> (register: Self)
        ensures
            register@ == with_bit(self@, 1, value),
            register.romerr() == value,
    {
        proof {
            with_bit_changes_one_bit(self.byte, 1, value, 1);
        }
        ExtFaultsRegister { byte: set_bit(self.byte, 1, value) }
    }

    /// Whether the `memerr` bit is set.
    pub open spec fn spec_memerr(&self) -> bool {
        bit(self@, 2)
    }

    /// MEMERR: memory error occurred.
    #[verifier::when_used_as_spec(spec_memerr)]
    pub fn memerr(&self) -> (value: bool)
        ensures
            value == self.spec_memerr(),
    {
        get_bit(self.byte, 2)
    }

    /// The register with the `memerr` bit set to `value`.
    pub fn with_memerr(self, value: bool) -> (register: Self)
        ensures
            register@ == with_bit(self@, 2, value),
            register.memerr() == value,
    {
        proof {
            with_bit_changes_one_bit(self.byte, 2, value, 2);
        }
        ExtFaultsRegister { byte: set_bit(self.byte, 2, value) }
    }

    /// Whether the `fcaerr` bit is set.
    pub open spec fn spec_fcaerr(&self) -> bool {
        bit(self@, 3)
    }

    /// FCAERR: fast-channel error occurred.
    #[verifier::when_used_as_spec(spec_fcaerr)]
    pub fn fcaerr(&self) -> (value: bool)
        ensures
            value == self.spec_fcaerr(),
    {
        get_bit(self.byte, 3)
    }

    /// The register with the `fcaerr` bit set to `value`.
    pub fn with_fcaerr(self, value: bool) -> (register: Self)
        ensures
            register@ == with_bit(self@, 3, value),
            register.fcaerr() == value,
    {
        proof {
            with_bit_changes_one_bit(self.byte, 3, value, 3);
        }
        ExtFaultsRegister { byte: set_bit(self.byte, 3, value) }
    }

    /// Whether the `xramerr` bit is set.
    pub open spec fn spec_xramerr(&self) -> bool {
        bit(self@, 4)
    }

    /// XRAMERR: XRAM error occurred.
    #[verifier::when_used_as_spec(spec_xramerr)]
    pub fn xramerr(&self) -> (value: bool)
        ensures
            value == self.spec_xramerr(),
    {
        get_bit(self.byte, 4)
    }

    /// The register with the `xramerr` bit set to `value`.
    pub fn with_xramerr(self, value: bool) -> (register: Self)
        ensures
            register@ == with_bit(self@, 4, value),
            register.xramerr() == value,
    {
        proof {
            with_bit_changes_one_bit(self.byte, 4, value, 4);
        }
        ExtFaultsRegister { byte: set_bit(self.byte, 4, value) }
    }

    /// Whether the `iramerr` bit is set.
    pub open spec fn spec_iramerr(&self) -> bool {
        bit(self@, 5)
    }

    /// IRAMERR: IRAM error occurred.
    #[verifier::when_used_as_spec(spec_iramerr)]
    pub fn iramerr(&self) -> (value: bool)
        ensures
            value == self.spec_iramerr(),
    {
        get_bit(self.byte, 5)
    }

    /// The register with the `iramerr` bit set to `value`.
    pub fn with_iramerr(self, value: bool) -> (register: Self)
        ensures
            register@ == with_bit(self@, 5, value),
            register.iramerr() == value,
    {
        proof {
            with_bit_changes_one_bit(self.byte, 5, value, 5);
        }
        ExtFaultsRegister { byte: set_bit(self.byte, 5, value) }
    }

    /// Whether the `hwmbistexec` bit is set.
    pub open spec fn spec_hwmbistexec(&self) -> bool {
        bit(self@, 7)
    }

    /// HWMBISTEXEC: memory BIST was executed.
    #[verifier::when_used_as_spec(spec_hwmbistexec)]
    pub fn hwmbistexec(&self) -> (value: bool)
        ensures
            value == self.spec_hwmbistexec(),
    {
        get_bit(self.byte, 7)
    }

    /// The register with the `hwmbistexec` bit set to `value`.
    pub fn with_hwmbistexec(self, value: bool) -> (register: Self)
        ensures
            register@ == with_bit(self@, 7, value),
            register.hwmbistexec() == value,
    {
        proof {
            with_bit_changes_one_bit(self.byte, 7, value, 7);
        }
        ExtFaultsRegister { byte: set_bit(self.byte, 7, value) }
    }
}

/// Bit `index` of a byte is its binary digit of that weight.
pub proof fn bits_are_digits(byte: u8)
    ensures
        bit(byte, 0) <==> byte % 2 == 1,
        bit(byte, 1) <==> byte / 2 % 2 == 1,
        bit(byte, 2) <==> byte / 4 % 2 == 1,
        bit(byte, 3) <==> byte / 8 % 2 == 1,
        bit(byte, 4) <==> byte / 16 % 2 == 1,
        bit(byte, 5) <==> byte / 32 % 2 == 1,
        bit(byte, 6) <==> byte / 64 % 2 == 1,
        bit(byte, 7) <==> byte / 128 == 1,
{
    assert((bit(byte, 0) <==> byte % 2 == 1) && (bit(byte, 1) <==> byte / 2 % 2 == 1) && (bit(byte, 2) <==> byte / 4 % 2 == 1)
        && (bit(byte, 3) <==> byte / 8 % 2 == 1) && (bit(byte, 4) <==> byte / 16 % 2 == 1) && (bit(byte, 5) <==> byte / 32
        % 2 == 1) && (bit(byte, 6) <==> byte / 64 % 2 == 1) && (bit(byte, 7) <==> byte / 128 == 1)) by (bit_vector);
}

/// The memory-lock field of a byte is its two digits of weight 16 and 32, and setting it replaces
/// them.
pub proof fn lock_field_is_two_digits(byte: u8, value: u8)
    ensures
        lock_field(byte) == byte / 16 % 4,
        value < 4 ==> with_lock_field(byte, value) == byte - 16 * (byte / 16 % 4) + 16 * value,
{
    assert(lock_field(byte) == byte / 16 % 4 && (value < 4 ==> with_lock_field(byte, value) == byte - 16 * (byte / 16 % 4)
        + 16 * value)) by (bit_vector);
}

/// The flags of [`OpsControlRegister`] are the digits of its byte.
pub proof fn ops_control_flags_are_digits(register: OpsControlRegister)
    ensures
        register.sleep() <==> register@ % 2 == 1,
        register.clr() <==> register@ / 2 % 2 == 1,
        register.sshot() <==> register@ / 4 % 2 == 1,
        register.cont() <==> register@ / 8 % 2 == 1,
        register.adjupd() <==> register@ / 32 % 2 == 1,
        register.rst() <==> register@ / 128 == 1,
{
    bits_are_digits(register@);
}

/// The flags of [`FastControlRegister`] are the digits of its byte.
pub proof fn fast_control_flags_are_digits(register: FastControlRegister)
    ensures
        register.faconv() <==> register@ % 2 == 1,
        register.facha() <==> register@ / 2 % 2 == 1,
        register.fach1() <==> register@ / 4 % 2 == 1,
        register.fach2() <==> register@ / 8 % 2 == 1,
{
    bits_are_digits(register@);
}

/// The flags of [`AdcConfiguration`] are the digits of its byte.
pub proof fn adc_configuration_flags_are_digits(register: AdcConfiguration)
    ensures
        register.p1asv() <==> register@ % 2 == 1,
        register.p2asv() <==> register@ / 2 % 2 == 1,
        register.ntc1() <==> register@ / 8 % 2 == 1,
        register.ntc2() <==> register@ / 16 % 2 == 1,
        register.ntcslot1() <==> register@ / 64 % 2 == 1,
{
    bits_are_digits(register@);
}

/// The flags of [`RegControlRegister`] are the digits of its byte.
pub proof fn reg_control_flags_are_digits(register: RegControlRegister)
    ensures
        register.page() <==> register@ % 2 == 1,
        register.bcren() <==> register@ / 4 % 2 == 1,
        register.rdcvconf() <==> register@ / 128 == 1,
{
    bits_are_digits(register@);
}

/// The flags of [`StatusRegister`] are the digits of its byte.
pub proof fn status_flags_are_digits(register: StatusRegister)
    ensures
        register.uvloa() <==> register@ % 2 == 1,
        register.pora() <==> register@ / 2 % 2 == 1,
        register.uvlostby() <==> register@ / 4 % 2 == 1,
        register.uvlod() <==> register@ / 8 % 2 == 1,
        register.update() <==> register@ / 16 % 2 == 1,
        register.adcerr() <==> register@ / 32 % 2 == 1,
        register.tberr() <==> register@ / 64 % 2 == 1,
{
    bits_are_digits(register@);
}

/// The flags of [`VTAlerts`] are the digits of its byte.
pub proof fn vtalerts_flags_are_digits(register: VTAlerts)
    ensures
        register.bath() <==> register@ % 2 == 1,
        register.batl() <==> register@ / 2 % 2 == 1,
        register.temph() <==> register@ / 4 % 2 == 1,
        register.templ() <==> register@ / 8 % 2 == 1,
        register.slot1h() <==> register@ / 16 % 2 == 1,
        register.slot1l() <==> register@ / 32 % 2 == 1,
        register.slot2h() <==> register@ / 64 % 2 == 1,
        register.slot2l() <==> register@ / 128 == 1,
{
    bits_are_digits(register@);
}

/// The flags of [`IPAlerts`] are the digits of its byte.
pub proof fn ipalerts_flags_are_digits(register: IPAlerts)
    ensures
        register.i1h() <==> register@ % 2 == 1,
        register.i1l() <==> register@ / 2 % 2 == 1,
        register.p1h() <==> register@ / 4 % 2 == 1,
        register.p1l() <==> register@ / 8 % 2 == 1,
        register.i2h() <==> register@ / 16 % 2 == 1,
        register.i2l() <==> register@ / 32 % 2 == 1,
        register.p2h() <==> register@ / 64 % 2 == 1,
        register.p2l() <==> register@ / 128 == 1,
{
    bits_are_digits(register@);
}

/// The flags of [`CAlerts`] are the digits of its byte.
pub proof fn calerts_flags_are_digits(register: CAlerts)
    ensures
        register.c1h() <==> register@ % 2 == 1,
        register.c1l() <==> register@ / 2 % 2 == 1,
        register.c2h() <==> register@ / 4 % 2 == 1,
        register.c2l() <==> register@ / 8 % 2 == 1,
        register.c3h() <==> register@ / 16 % 2 == 1,
        register.c3l() <==> register@ / 32 % 2 == 1,
{
    bits_are_digits(register@);
}

/// The flags of [`EAlerts`] are the digits of its byte.
pub proof fn ealerts_flags_are_digits(register: EAlerts)
    ensures
        register.e1h() <==> register@ % 2 == 1,
        register.e1l() <==> register@ / 2 % 2 == 1,
        register.e2h() <==> register@ / 4 % 2 == 1,
        register.e2l() <==> register@ / 8 % 2 == 1,
        register.e4h() <==> register@ / 64 % 2 == 1,
        register.e4l() <==> register@ / 128 == 1,
{
    bits_are_digits(register@);
}

/// The flags of [`CEOFAlerts`] are the digits of its byte.
pub proof fn ceofalerts_flags_are_digits(register: CEOFAlerts)
    ensures
        register.c1ovf() <==> register@ % 2 == 1,
        register.c2ovf() <==> register@ / 2 % 2 == 1,
        register.c3ovf() <==> register@ / 4 % 2 == 1,
        register.e1ovf() <==> register@ / 16 % 2 == 1,
        register.e2ovf() <==> register@ / 32 % 2 == 1,
        register.e4ovf() <==> register@ / 128 == 1,
{
    bits_are_digits(register@);
}

/// The flags of [`TBAlerts`] are the digits of its byte.
pub proof fn tbalerts_flags_are_digits(register: TBAlerts)
    ensures
        register.t1th() <==> register@ % 2 == 1,
        register.t2th() <==> register@ / 2 % 2 == 1,
        register.t3th() <==> register@ / 4 % 2 == 1,
        register.t4th() <==> register@ / 8 % 2 == 1,
        register.t1ovf() <==> register@ / 16 % 2 == 1,
        register.t2ovf() <==> register@ / 32 % 2 == 1,
        register.t3ovf() <==> register@ / 64 % 2 == 1,
        register.t4ovf() <==> register@ / 128 == 1,
{
    bits_are_digits(register@);
}

/// The flags of [`VCCAlerts`] are the digits of its byte.
pub proof fn vccalerts_flags_are_digits(register: VCCAlerts)
    ensures
        register.vcch() <==> register@ % 2 == 1,
        register.vccl() <==> register@ / 2 % 2 == 1,
        register.occ1h() <==> register@ / 4 % 2 == 1,
        register.occ2h() <==> register@ / 8 % 2 == 1,
{
    bits_are_digits(register@);
}

/// The flags of [`FaultsRegister`] are the digits of its byte.
pub proof fn faults_flags_are_digits(register: FaultsRegister)
    ensures
        register.promerr() <==> register@ % 2 == 1,
        register.tsd() <==> register@ / 2 % 2 == 1,
        register.intcommerr() <==> register@ / 4 % 2 == 1,
        register.extcommerr() <==> register@ / 8 % 2 == 1,
        register.faerr() <==> register@ / 16 % 2 == 1,
        register.hwbist() <==> register@ / 32 % 2 == 1,
        register.crccfg() <==> register@ / 64 % 2 == 1,
        register.crcmem() <==> register@ / 128 == 1,
{
    bits_are_digits(register@);
}

/// The flags of [`ExtFaultsRegister`] are the digits of its byte.
pub proof fn ext_faults_flags_are_digits(register: ExtFaultsRegister)
    ensures
        register.hd1biterr() <==> register@ % 2 == 1,
        register.romerr() <==> register@ / 2 % 2 == 1,
        register.memerr() <==> register@ / 4 % 2 == 1,
        register.fcaerr() <==> register@ / 8 % 2 == 1,
        register.xramerr() <==> register@ / 16 % 2 == 1,
        register.iramerr() <==> register@ / 32 % 2 == 1,
        register.hwmbistexec() <==> register@ / 128 == 1,
{
    bits_are_digits(register@);
}

} // verus!
