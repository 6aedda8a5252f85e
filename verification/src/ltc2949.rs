//! Raw-valued driver for the LTC2949 current, voltage, charge and energy monitor.
//!
//! This driver targets the addressable, parallel-to-daisy-chain arrangement of datasheet
//! Figure 12(B): the LTC2949 hangs off the isoSPI bus *in parallel* with a daisy chain of
//! LTC68xx cell monitors, rather than being chained inside it. Register reads and writes both
//! use `DCMD` (command 0xFE), which the cell monitors do not understand, and `BCREN` is kept
//! cleared so the LTC2949 never collides with them on broadcast reads. The same framing also
//! covers an LTC2949 that is alone on the bus.
//!
//! Results are the raw register codes. A drain of a FIFO reads one sample per command, and a
//! burst that is longer than one PEC group is split into several commands.
use vstd::prelude::*;

use crate::binary::Binary32;
use crate::bus::{ActionView, SpiTranscript};
use crate::float24::Float24;
use crate::link::{Link, LinkView};
use crate::measurements::AccumulatorsView;
use crate::polling::{NoPolling, PollMethod};
use crate::registers::{RegAddressP0, RegAddressP1};

pub use crate::config::{Channel, MuxInput, NtcConfig, ShuntTcConfig};
pub use crate::error::Error;
pub use crate::fifo::{FifoSample, FifoTag};
pub use crate::registers::{
    AdcConfiguration as AdcConf, FastControlRegister as FaCtrl, OpsControlRegister as OpCtrl, Page,
    RegControlRegister as RegsCtrl,
};

verus! {

/// Worst-case core boot time from SLEEP/power-up to STANDBY (datasheet tBOOT).
/// Returned by [`Ltc2949Client::start_wake_up`].
pub const T_BOOT_US: u32 = 100_000;

/// isoSPI port start-up time after a wake edge (datasheet tREADY, 10 us; doubled for margin).
/// Returned by [`Ltc2949Client::wake_isospi`].
pub const T_READY_US: u32 = 20;

/// Worst-case memory-lock acknowledge time (datasheet tMLCK in MEASURE mode, 130 ms;
/// 40 ms in STANDBY; the MEASURE value is returned as the safe upper bound).
/// Returned by [`Ltc2949Client::request_memory_lock`].
pub const T_MLCK_US: u32 = 130_000;

/// Page-0 register addresses (datasheet Tables 24, 26-28, 57-64). PAGE0 holds the
/// measurement results, accumulators, status and the control/fast-mode registers.
#[derive(Copy, Clone, Eq, PartialEq, Structural, Debug)]
pub enum Page0Reg {
    Charge1,
    Energy1,
    Time1,
    Charge2,
    Energy2,
    Time2,
    Charge3,
    Time3,
    Energy4,
    Time4,
    WkupAck,
    Status,
    Current1,
    Power1,
    Current2,
    Power2,
    Bat,
    Temp,
    Vcc,
    Slot1,
    Slot2,
    Vref,
    Slot1MuxN,
    Slot1MuxP,
    Slot2MuxN,
    Slot2MuxP,
    ExtFaults,
    Faults,
    OpCtrl,
    FCurGpioCtrl,
    FGpioCtrl,
    FaMuxN,
    FaMuxP,
    FaCtrl,
    FifoI1,
    FifoI2,
    FifoBat,
    FifoAux,
    RdcvIAddr,
    RegsCtrl,
}

impl Page0Reg {
    /// The on-bus `RADDR` byte of the register.
    pub open spec fn spec_addr(self) -> u8 {
        match self {
            Page0Reg::Charge1 => 0x00,
            Page0Reg::Energy1 => 0x06,
            Page0Reg::Time1 => 0x0C,
            Page0Reg::Charge2 => 0x10,
            Page0Reg::Energy2 => 0x16,
            Page0Reg::Time2 => 0x1C,
            Page0Reg::Charge3 => 0x24,
            Page0Reg::Time3 => 0x2C,
            Page0Reg::Energy4 => 0x34,
            Page0Reg::Time4 => 0x3C,
            Page0Reg::WkupAck => 0x70,
            Page0Reg::Status => 0x80,
            Page0Reg::Current1 => 0x90,
            Page0Reg::Power1 => 0x93,
            Page0Reg::Current2 => 0x96,
            Page0Reg::Power2 => 0x99,
            Page0Reg::Bat => 0xA0,
            Page0Reg::Temp => 0xA2,
            Page0Reg::Vcc => 0xA4,
            Page0Reg::Slot1 => 0xA6,
            Page0Reg::Slot2 => 0xA8,
            Page0Reg::Vref => 0xAA,
            Page0Reg::Slot1MuxN => 0xEB,
            Page0Reg::Slot1MuxP => 0xEC,
            Page0Reg::Slot2MuxN => 0xED,
            Page0Reg::Slot2MuxP => 0xEE,
            Page0Reg::ExtFaults => 0xDC,
            Page0Reg::Faults => 0xDD,
            Page0Reg::OpCtrl => 0xF0,
            Page0Reg::FCurGpioCtrl => 0xF1,
            Page0Reg::FGpioCtrl => 0xF2,
            Page0Reg::FaMuxN => 0xF3,
            Page0Reg::FaMuxP => 0xF4,
            Page0Reg::FaCtrl => 0xF5,
            Page0Reg::FifoI1 => 0xF7,
            Page0Reg::FifoI2 => 0xF8,
            Page0Reg::FifoBat => 0xF9,
            Page0Reg::FifoAux => 0xFA,
            Page0Reg::RdcvIAddr => 0xFC,
            Page0Reg::RegsCtrl => 0xFF,
        }
    }

    /// Returns the on-bus `RADDR` byte of the register.
    #[verifier::when_used_as_spec(spec_addr)]
    pub fn addr(self) -> (addr: u8)
        ensures
            addr == self.spec_addr(),
    {
        match self {
            Page0Reg::Charge1 => 0x00,
            Page0Reg::Energy1 => 0x06,
            Page0Reg::Time1 => 0x0C,
            Page0Reg::Charge2 => 0x10,
            Page0Reg::Energy2 => 0x16,
            Page0Reg::Time2 => 0x1C,
            Page0Reg::Charge3 => 0x24,
            Page0Reg::Time3 => 0x2C,
            Page0Reg::Energy4 => 0x34,
            Page0Reg::Time4 => 0x3C,
            Page0Reg::WkupAck => 0x70,
            Page0Reg::Status => 0x80,
            Page0Reg::Current1 => 0x90,
            Page0Reg::Power1 => 0x93,
            Page0Reg::Current2 => 0x96,
            Page0Reg::Power2 => 0x99,
            Page0Reg::Bat => 0xA0,
            Page0Reg::Temp => 0xA2,
            Page0Reg::Vcc => 0xA4,
            Page0Reg::Slot1 => 0xA6,
            Page0Reg::Slot2 => 0xA8,
            Page0Reg::Vref => 0xAA,
            Page0Reg::Slot1MuxN => 0xEB,
            Page0Reg::Slot1MuxP => 0xEC,
            Page0Reg::Slot2MuxN => 0xED,
            Page0Reg::Slot2MuxP => 0xEE,
            Page0Reg::ExtFaults => 0xDC,
            Page0Reg::Faults => 0xDD,
            Page0Reg::OpCtrl => 0xF0,
            Page0Reg::FCurGpioCtrl => 0xF1,
            Page0Reg::FGpioCtrl => 0xF2,
            Page0Reg::FaMuxN => 0xF3,
            Page0Reg::FaMuxP => 0xF4,
            Page0Reg::FaCtrl => 0xF5,
            Page0Reg::FifoI1 => 0xF7,
            Page0Reg::FifoI2 => 0xF8,
            Page0Reg::FifoBat => 0xF9,
            Page0Reg::FifoAux => 0xFA,
            Page0Reg::RdcvIAddr => 0xFC,
            Page0Reg::RegsCtrl => 0xFF,
        }
    }
}

/// Page-1 register addresses (datasheet Tables 69, 71, 76). PAGE1 holds thresholds and
/// configuration: here the ADC config plus the NTC-linearisation and sense-resistor
/// temperature-compensation coefficient blocks.
#[derive(Copy, Clone, Eq, PartialEq, Structural, Debug)]
pub enum Page1Reg {
    Rs1Tc2,
    Rs2Tc2,
    Rref1,
    Rref2,
    Ntc1A,
    Ntc1B,
    Ntc1C,
    Rs1Tc,
    Rs1T0,
    AdcConf,
    Ntc2A,
    Ntc2B,
    Ntc2C,
    Rs2Tc,
    Rs2T0,
}

impl Page1Reg {
    /// The on-bus `RADDR` byte of the register.
    pub open spec fn spec_addr(self) -> u8 {
        match self {
            Page1Reg::Rs1Tc2 => 0x5C,
            Page1Reg::Rs2Tc2 => 0x7C,
            Page1Reg::Rref1 => 0xAA,
            Page1Reg::Rref2 => 0xAD,
            Page1Reg::Ntc1A => 0xD0,
            Page1Reg::Ntc1B => 0xD3,
            Page1Reg::Ntc1C => 0xD6,
            Page1Reg::Rs1Tc => 0xD9,
            Page1Reg::Rs1T0 => 0xDC,
            Page1Reg::AdcConf => 0xDF,
            Page1Reg::Ntc2A => 0xE0,
            Page1Reg::Ntc2B => 0xE3,
            Page1Reg::Ntc2C => 0xE6,
            Page1Reg::Rs2Tc => 0xE9,
            Page1Reg::Rs2T0 => 0xEC,
        }
    }

    /// Returns the on-bus `RADDR` byte of the register.
    #[verifier::when_used_as_spec(spec_addr)]
    pub fn addr(self) -> (addr: u8)
        ensures
            addr == self.spec_addr(),
    {
        match self {
            Page1Reg::Rs1Tc2 => 0x5C,
            Page1Reg::Rs2Tc2 => 0x7C,
            Page1Reg::Rref1 => 0xAA,
            Page1Reg::Rref2 => 0xAD,
            Page1Reg::Ntc1A => 0xD0,
            Page1Reg::Ntc1B => 0xD3,
            Page1Reg::Ntc1C => 0xD6,
            Page1Reg::Rs1Tc => 0xD9,
            Page1Reg::Rs1T0 => 0xDC,
            Page1Reg::AdcConf => 0xDF,
            Page1Reg::Ntc2A => 0xE0,
            Page1Reg::Ntc2B => 0xE3,
            Page1Reg::Ntc2C => 0xE6,
            Page1Reg::Rs2Tc => 0xE9,
            Page1Reg::Rs2T0 => 0xEC,
        }
    }
}

/// The register of PAGE0 that a raw register name stands for.
pub open spec fn page0_register(register: Page0Reg) -> RegAddressP0 {
    match register {
        Page0Reg::Charge1 => RegAddressP0::Charge1,
        Page0Reg::Energy1 => RegAddressP0::Energy1,
        Page0Reg::Time1 => RegAddressP0::Time1,
        Page0Reg::Charge2 => RegAddressP0::Charge2,
        Page0Reg::Energy2 => RegAddressP0::Energy2,
        Page0Reg::Time2 => RegAddressP0::Time2,
        Page0Reg::Charge3 => RegAddressP0::Charge3,
        Page0Reg::Time3 => RegAddressP0::Time3,
        Page0Reg::Energy4 => RegAddressP0::Energy4,
        Page0Reg::Time4 => RegAddressP0::Time4,
        Page0Reg::WkupAck => RegAddressP0::WkupAck,
        Page0Reg::Status => RegAddressP0::Status,
        Page0Reg::Current1 => RegAddressP0::Current1,
        Page0Reg::Power1 => RegAddressP0::Power1,
        Page0Reg::Current2 => RegAddressP0::Current2,
        Page0Reg::Power2 => RegAddressP0::Power2,
        Page0Reg::Bat => RegAddressP0::Bat,
        Page0Reg::Temp => RegAddressP0::Temp,
        Page0Reg::Vcc => RegAddressP0::Vcc,
        Page0Reg::Slot1 => RegAddressP0::Slot1,
        Page0Reg::Slot2 => RegAddressP0::Slot2,
        Page0Reg::Vref => RegAddressP0::Vref,
        Page0Reg::Slot1MuxN => RegAddressP0::Slot1MuxN,
        Page0Reg::Slot1MuxP => RegAddressP0::Slot1MuxP,
        Page0Reg::Slot2MuxN => RegAddressP0::Slot2MuxN,
        Page0Reg::Slot2MuxP => RegAddressP0::Slot2MuxP,
        Page0Reg::ExtFaults => RegAddressP0::ExtFaults,
        Page0Reg::Faults => RegAddressP0::Faults,
        Page0Reg::OpCtrl => RegAddressP0::OpCtrl,
        Page0Reg::FCurGpioCtrl => RegAddressP0::FCurGpioCtrl,
        Page0Reg::FGpioCtrl => RegAddressP0::FGpioCtrl,
        Page0Reg::FaMuxN => RegAddressP0::FaMuxN,
        Page0Reg::FaMuxP => RegAddressP0::FaMuxP,
        Page0Reg::FaCtrl => RegAddressP0::FaCtrl,
        Page0Reg::FifoI1 => RegAddressP0::FifoI1,
        Page0Reg::FifoI2 => RegAddressP0::FifoI2,
        Page0Reg::FifoBat => RegAddressP0::FifoBat,
        Page0Reg::FifoAux => RegAddressP0::FifoAux,
        Page0Reg::RdcvIAddr => RegAddressP0::RdcvIAddr,
        Page0Reg::RegsCtrl => RegAddressP0::RegsCtrl,
    }
}

/// A raw register name of PAGE0 has the address of the register that it stands for.
pub proof fn page0_names_agree(register: Page0Reg)
    ensures
        register.addr() == page0_register(register).addr(),
        crate::registers::page0_register_at(register.addr()) == Some(page0_register(register)),
{
}

/// The register of PAGE1 that a raw register name stands for.
pub open spec fn page1_register(register: Page1Reg) -> RegAddressP1 {
    match register {
        Page1Reg::Rs1Tc2 => RegAddressP1::Rs1Tc2,
        Page1Reg::Rs2Tc2 => RegAddressP1::Rs2Tc2,
        Page1Reg::Rref1 => RegAddressP1::Rref1,
        Page1Reg::Rref2 => RegAddressP1::Rref2,
        Page1Reg::Ntc1A => RegAddressP1::Ntc1A,
        Page1Reg::Ntc1B => RegAddressP1::Ntc1B,
        Page1Reg::Ntc1C => RegAddressP1::Ntc1C,
        Page1Reg::Rs1Tc => RegAddressP1::Rs1Tc,
        Page1Reg::Rs1T0 => RegAddressP1::Rs1T0,
        Page1Reg::AdcConf => RegAddressP1::AdcConf,
        Page1Reg::Ntc2A => RegAddressP1::Ntc2A,
        Page1Reg::Ntc2B => RegAddressP1::Ntc2B,
        Page1Reg::Ntc2C => RegAddressP1::Ntc2C,
        Page1Reg::Rs2Tc => RegAddressP1::Rs2Tc,
        Page1Reg::Rs2T0 => RegAddressP1::Rs2T0,
    }
}

/// A raw register name of PAGE1 has the address of the register that it stands for.
pub proof fn page1_names_agree(register: Page1Reg)
    ensures
        register.addr() == page1_register(register).addr(),
        crate::registers::page1_register_at(register.addr()) == Some(page1_register(register)),
{
}

/// Coherent snapshot of one channel's charge / energy / time-base accumulators.
///
/// On the device these three sit in a single 16-byte register row (channel 1 at
/// `0x00-0x0F`, channel 2 at `0x10-0x1F`). The datasheet guarantees coherency for a
/// multi-byte burst *within a row*, so reading all three in one burst yields a consistent
/// snapshot **without** the 130 ms memory lock.
#[derive(Copy, Clone, Eq, PartialEq, Structural, Debug)]
pub struct Accumulators {
    /// Charge (48-bit two's-complement; units LSB*377.887 ps*V).
    pub charge: i64,
    /// Energy (48-bit two's-complement).
    pub energy: i64,
    /// Time base (32-bit unsigned).
    pub time: u32,
}

impl View for Accumulators {
    type V = AccumulatorsView;

    open spec fn view(&self) -> AccumulatorsView {
        AccumulatorsView { charge: self.charge as int, energy: self.energy as int, time: self.time as int }
    }
}

/// Encodes a number in the LTC2949's 24-bit floating-point "Float24" format, MSB first.
pub fn float24_encode(value: Binary32) -> (bytes: [u8; 3])
    ensures
        bytes@ == crate::float24::bytes_of(value),
{
    Float24::new(value).encode()
}

/// Variant of [`float24_encode`] that returns only the top two bytes, used for the
/// `RSxT0` reference-temperature registers.
pub fn float24_encode_high2(value: Binary32) -> (bytes: [u8; 2])
    ensures
        bytes@ == crate::float24::bytes_of(value).take(2),
{
    Float24::new(value).encode_high()
}

/// The address of the PEC group that follows the one at `addr`; addresses wrap.
pub open spec fn next_group(addr: u8) -> u8 {
    ((addr + 16) % 256) as u8
}

impl<E> LinkView<E> {
    /// Writes `data` from `addr` on, one command per PEC group of 16 bytes.
    pub open spec fn write_groups(self, addr: u8, data: Seq<u8>) -> (Result<(), Error<E>>, Self)
        decreases data.len(),
    {
        if data.len() <= 16 {
            self.dcmd_write(addr, data)
        } else {
            match self.dcmd_write(addr, data.take(16)) {
                (Err(error), failed) => (Err(error), failed),
                (Ok(_), written) => written.write_groups(next_group(addr), data.skip(16)),
            }
        }
    }

    /// Reads `n` bytes from `addr` on, one command per PEC group of 16 bytes.
    pub open spec fn read_groups(self, addr: u8, n: nat) -> (Result<Seq<u8>, Error<E>>, Self)
        decreases n,
    {
        if n <= 16 {
            self.dcmd_read(addr, n)
        } else {
            match self.dcmd_read(addr, 16) {
                (Err(error), failed) => (Err(error), failed),
                (Ok(first), read) => match read.read_groups(next_group(addr), (n - 16) as nat) {
                    (Err(error), failed) => (Err(error), failed),
                    (Ok(rest), done) => (Ok(first + rest), done),
                },
            }
        }
    }
}

/// Groups are 16 registers apart, and behind the last address comes the first.
pub proof fn groups_are_sixteen_apart(addr: u8)
    ensures
        addr < 0xF0 ==> next_group(addr) == addr + 16,
        addr >= 0xF0 ==> next_group(addr) == addr - 0xF0,
{
}

/// The actions that write `data` from `addr` on, each command ended by `end`.
pub open spec fn group_actions(addr: u8, data: Seq<u8>, end: Seq<ActionView>) -> Seq<ActionView>
    decreases data.len(),
{
    if data.len() <= 16 {
        seq![crate::link::write_action(addr, data)] + end
    } else {
        (seq![crate::link::write_action(addr, data.take(16))] + end) + group_actions(
            next_group(addr),
            data.skip(16),
            end,
        )
    }
}

/// A long write is one plan: a command for each group of 16 bytes, in order, at addresses that
/// advance by 16.
pub proof fn long_write_is_one_plan<E>(link: LinkView<E>, addr: u8, data: Seq<u8>)
    ensures
        link.write_groups(addr, data) == link.perform(group_actions(addr, data, link.end)),
    decreases data.len(),
{
    if data.len() > 16 {
        let first = seq![crate::link::write_action(addr, data.take(16))] + link.end;
        let rest = group_actions(next_group(addr), data.skip(16), link.end);
        crate::bus::lemma_asked_in_order(link.bus, first, rest);
        long_write_is_one_plan(link.perform(first).1, next_group(addr), data.skip(16));
    }
}

/// Whether the replies on `link` serve a long read of `data`: each command is answered by its
/// group of 16 bytes with their PEC, behind any five bytes.
pub open spec fn serves_groups<E>(link: LinkView<E>, addr: u8, data: Seq<u8>) -> bool
    decreases data.len(),
{
    let group = if data.len() <= 16 {
        data
    } else {
        data.take(16)
    };
    &&& link.bus.covers(1 + link.end.len())
    &&& crate::laws::is_reply_with(link.bus.next_reply(), group)
    &&& data.len() > 16 ==> serves_groups(link.dcmd_read(addr, 16).1, next_group(addr), data.skip(16))
}

/// A long read gives back the bytes that the device sent, joined in order.
pub proof fn long_read_gives_back_what_was_sent<E>(link: LinkView<E>, addr: u8, data: Seq<u8>)
    requires
        serves_groups(link, addr, data),
    ensures
        link.read_groups(addr, data.len()).0 == Ok::<Seq<u8>, Error<E>>(data),
    decreases data.len(),
{
    if data.len() <= 16 {
        crate::laws::read_ignores_the_echo(link, addr, data);
    } else {
        crate::laws::read_ignores_the_echo(link, addr, data.take(16));
        long_read_gives_back_what_was_sent(link.dcmd_read(addr, 16).1, next_group(addr), data.skip(16));
        assert(data.take(16) + data.skip(16) =~= data);
    }
}

/// A long read that succeeds asks for each group in turn: command `k` reads 16 bytes, or what is left
/// of them, 16 registers further on for each command before it, and each command is ended.
pub proof fn long_read_asks_for_each_group<E>(link: LinkView<E>, addr: u8, n: nat, k: nat)
    requires
        link.read_groups(addr, n).0 is Ok,
        k > 0 ==> 16 * k < n,
    ensures
        ({
            let before = link.bus.sent;
            let after = link.read_groups(addr, n).1.bus.sent;
            let at = before.len() + k * (1 + link.end.len());
            &&& before.len() <= after.len() && after.take(before.len() as int) == before
            &&& at < after.len()
            &&& after[at as int] == crate::link::read_action(
                ((addr + 16 * k) % 256) as u8,
                if n - 16 * k <= 16 {
                    (n - 16 * k) as nat
                } else {
                    16
                },
            )
        }),
    decreases n,
{
    let before = link.bus.sent;
    let size: nat = if n <= 16 {
        n
    } else {
        16
    };
    let read = link.dcmd_read(addr, size).1;
    let each = (1 + link.end.len()) as int;
    assert(read.bus.sent =~= before + (seq![crate::link::read_action(addr, size)] + link.end));
    assert(0 * each == 0);
    let after = link.read_groups(addr, n).1.bus.sent;
    if n > 16 {
        let next: nat = if k > 0 {
            (k - 1) as nat
        } else {
            0
        };
        let rest = (n - 16) as nat;
        long_read_asks_for_each_group(read, next_group(addr), rest, next);
        assert(after.take(before.len() as int) =~= before) by {
            assert(after.take(read.bus.sent.len() as int).take(before.len() as int) =~= after.take(before.len() as int));
            assert(read.bus.sent.take(before.len() as int) =~= before);
        }
        if k == 0 {
            assert(after.take(read.bus.sent.len() as int)[before.len() as int] == read.bus.sent[before.len() as int]);
        } else {
            assert((k - 1) * each + each == k * each) by (nonlinear_arith);
            assert((next_group(addr) + 16 * next) % 256 == (addr + 16 * k) % 256);
        }
    } else {
        assert(after.take(before.len() as int) =~= before);
    }
}

/// High-level LTC2949 operation set, the dependency-injection seam for hosts.
///
/// The generic FIFO drains (`read_fifo_*`) are intentionally *not* part of this trait; use
/// them on the concrete [`LTC2949`] when fast-continuous capture is required.
pub trait Ltc2949Client {
    type Error;

    /// Starts the recommended wake-up sequence (datasheet Figure 20): two dummy null
    /// bytes provide the isoSPI wake-up edge. Returns the wait in microseconds
    /// ([`T_BOOT_US`]) the host must observe before calling
    /// [`confirm_wake_up`](Self::confirm_wake_up), covering the case where the core was in
    /// SLEEP or had just powered up and is still booting to STANDBY. This also invalidates
    /// the cached page selection, since a device reset clears it.
    ///
    /// The driver never blocks - the host owns the wait (poll a timer, sleep, etc.).
    ///
    /// Use this on bring-up and after any intentional SLEEP. For a device that is already
    /// awake (core in STANDBY/MEASURE) whose isoSPI port has merely gone idle, the cheaper
    /// [`wake_isospi`](Self::wake_isospi) is sufficient.
    fn start_wake_up(&mut self) -> Result<u32, Self::Error>;

    /// Completes the wake-up sequence by writing WKUPACK, confirming wake-up so the device
    /// does not auto-return to SLEEP after `tACKN` (1 s). Call once the wait returned by
    /// [`start_wake_up`](Self::start_wake_up) has elapsed.
    fn confirm_wake_up(&mut self) -> Result<(), Self::Error>;

    /// Re-wakes only the isoSPI port (datasheet `tIDLE` = 6.4 ms), leaving the core state
    /// untouched. The port drops to IDLE after a few milliseconds of bus inactivity, so a
    /// periodic task must pulse it before each burst or the first frame is lost during the
    /// port start-up. One dummy byte gives the edge; the returned wait ([`T_READY_US`])
    /// must elapse before the next transaction. In a cooperative task loop one scheduler
    /// iteration typically exceeds it, so pulsing at the end of one cycle and transacting
    /// on the next needs no timer at all.
    ///
    /// This does **not** boot the core or confirm wake-up - use
    /// [`start_wake_up`](Self::start_wake_up) for that. Note the LTC68xx cell monitors on
    /// the same bus share this requirement.
    fn wake_isospi(&mut self) -> Result<u32, Self::Error>;

    /// Writes the Operation Control register (PAGE0, 0xF0).
    fn write_opctrl(&mut self, value: OpCtrl) -> Result<(), Self::Error>;

    /// Reads the Operation Control register.
    fn read_opctrl(&mut self) -> Result<OpCtrl, Self::Error>;

    /// Writes the Fast Control register (PAGE0, 0xF5).
    fn write_factrl(&mut self, value: FaCtrl) -> Result<(), Self::Error>;

    /// Writes the ADC Configuration register (PAGE1, 0xDF).
    ///
    /// Per the datasheet, changes to configuration registers other than thresholds only
    /// take effect after an ADJUPD pulse on OPCTRL while the core is in STANDBY.
    fn write_adcconf(&mut self, value: AdcConf) -> Result<(), Self::Error>;

    /// Writes the Fast AUX mux selection (FAMUXP, FAMUXN).
    fn write_fast_aux_mux(&mut self, mux_n: u8, mux_p: u8) -> Result<(), Self::Error>;

    /// Writes the Steinhart-Hart coefficients and reference resistor for an NTC channel,
    /// encoding each parameter in the device's Float24 format.
    ///
    /// To activate the linearisation after a successful write the caller still has to:
    ///
    /// 1. Configure the SLOT mux registers so the relevant `Vn` pin is presented to the
    ///    AUX ADC together with `VREF`.
    /// 2. Set [`AdcConf::ntc1`] (or `ntc2`) and apply it.
    /// 3. Pulse [`OpCtrl::adjupd`] while the core is in STANDBY so the device latches the
    ///    new configuration.
    ///
    /// `RREFn` is written as a single 3-byte burst at its dedicated address; the three
    /// coefficient registers (`NTCnA/B/C`) are contiguous on the page so they go out in
    /// one 9-byte burst.
    fn write_ntc_coefficients(&mut self, channel: Channel, params: &NtcConfig) -> Result<(), Self::Error>;

    /// Writes the sense-resistor temperature-compensation parameters for one channel.
    /// `RSnTC` (3 bytes) and `RSnT0` (2 bytes) sit contiguously on page 1 so they're sent
    /// in a single 5-byte burst; `RSnTC2` lives at a distinct address (3 bytes).
    ///
    /// As with [`write_ntc_coefficients`](Self::write_ntc_coefficients), the new values
    /// only become active after an `ADJUPD` pulse on `OpCtrl` while the core is in STANDBY.
    fn write_shunt_tc(&mut self, channel: Channel, config: &ShuntTcConfig) -> Result<(), Self::Error>;

    /// Configures the slow-mode SLOT auxiliary multiplexer (datasheet Tables 57 & 58). The
    /// `negative` and `positive` arguments select the inputs routed to `MUXN` and `MUXP`
    /// for the chosen SLOT, which the AUX ADC then measures differentially each Round-Robin
    /// cycle.
    ///
    /// Typical NTC wiring uses `(positive = Vx, negative = Agnd)` - a single-ended pin
    /// reading - together with [`AdcConf::ntc1`]/`ntc2` set so the device reports the
    /// result as a linearised temperature.
    fn write_slot_mux(&mut self, slot: Channel, negative: MuxInput, positive: MuxInput) -> Result<(), Self::Error>;

    /// Reads the STATUS register (raw byte, datasheet Table 26).
    fn read_status(&mut self) -> Result<u8, Self::Error>;

    /// Reads the FAULTS register (raw byte, datasheet 0xDD). Bits flag conditions such as
    /// UVLO, POR and self-test failures; consult the datasheet for the bit map. No typed
    /// bitfield is provided yet.
    fn read_faults(&mut self) -> Result<u8, Self::Error>;

    /// Reads the EXTFAULTS (extended faults) register (raw byte, datasheet 0xDC).
    fn read_extfaults(&mut self) -> Result<u8, Self::Error>;

    /// Requests the memory lock (datasheet Figure 19): writes `MLK = 0b01` to REGSCTRL.
    /// Returns the wait in microseconds ([`T_MLCK_US`], the worst-case `tMLCK,M`) the host
    /// must observe before the register map is guaranteed frozen. While locked, reads of
    /// any one page return a coherent snapshot even across registers; internal
    /// accumulation continues unaffected. Release with
    /// [`unlock_memory`](Self::unlock_memory) - the lock does not expire on its own.
    ///
    /// **Not normally required:** a single multi-byte burst within one 16-byte row
    /// (every accumulator here - e.g. `Charge1`, `Energy1`, `Time1`) is already coherent
    /// per the datasheet, so individual reads do not need locking. Use this only to snapshot
    /// *several* registers at the same instant. Stay on the currently selected page while
    /// locked - switching pages rewrites REGSCTRL and releases the lock.
    fn request_memory_lock(&mut self) -> Result<u32, Self::Error>;

    /// Releases the memory lock (`MLK = 0b00`), letting the register map update again.
    fn unlock_memory(&mut self) -> Result<(), Self::Error>;

    /// Reads I1 (slow-mode current 1) as a 24-bit two's-complement value.
    /// LSB = 950 nV for slow mode, 237.5 nV for the averaged result.
    fn read_current1(&mut self) -> Result<i32, Self::Error>;

    /// Reads I2 (slow-mode current 2). LSB = 950 nV.
    fn read_current2(&mut self) -> Result<i32, Self::Error>;

    /// Reads P1 (power 1 or voltage if P1ASV is set). LSB = 5.8368 uV^2/Ohm (power) or
    /// 46.875 uV (voltage).
    fn read_power1(&mut self) -> Result<i32, Self::Error>;

    /// Reads P2 (power 2 or voltage if P2ASV is set).
    fn read_power2(&mut self) -> Result<i32, Self::Error>;

    /// Reads BAT (battery voltage). LSB = 375 uV.
    fn read_bat(&mut self) -> Result<i16, Self::Error>;

    /// Reads internal die temperature. LSB = 0.2 C, full-scale 819.2 K.
    fn read_temp(&mut self) -> Result<i16, Self::Error>;

    /// Reads A/DVCC supply voltage. LSB = 2.26 mV.
    fn read_vcc(&mut self) -> Result<i16, Self::Error>;

    /// Reads SLOT1 - voltage (375 uV/LSB) or temperature (0.2 C/LSB) depending on NTC1
    /// in ADCCONF.
    fn read_slot1(&mut self) -> Result<i16, Self::Error>;

    /// Reads SLOT2 - voltage (375 uV/LSB) or temperature (0.2 C/LSB) depending on NTC2
    /// in ADCCONF.
    fn read_slot2(&mut self) -> Result<i16, Self::Error>;

    /// Reads Charge1 (48-bit two's-complement, units LSB*377.887 ps*V).
    fn read_charge1(&mut self) -> Result<i64, Self::Error>;

    /// Reads Charge2 (48-bit).
    fn read_charge2(&mut self) -> Result<i64, Self::Error>;

    /// Reads Charge3 - weighted sum of channel 1 and channel 2 (64-bit).
    fn read_charge3(&mut self) -> Result<i64, Self::Error>;

    /// Reads Energy1 (48-bit).
    fn read_energy1(&mut self) -> Result<i64, Self::Error>;

    /// Reads Energy2 (48-bit).
    fn read_energy2(&mut self) -> Result<i64, Self::Error>;

    /// Reads Energy4 - weighted sum of channel 1 and channel 2 (64-bit).
    fn read_energy4(&mut self) -> Result<i64, Self::Error>;

    /// Reads time-base 1 (32-bit unsigned).
    fn read_time1(&mut self) -> Result<u32, Self::Error>;

    /// Reads time-base 2.
    fn read_time2(&mut self) -> Result<u32, Self::Error>;

    /// Reads time-base 3.
    fn read_time3(&mut self) -> Result<u32, Self::Error>;

    /// Reads time-base 4.
    fn read_time4(&mut self) -> Result<u32, Self::Error>;

    /// Reads channel 1's charge, energy and time-base ([`Accumulators`]) in a single
    /// 16-byte burst (row `0x00-0x0F`). The three values form a coherent snapshot from the
    /// same `CONT` cycle without needing the memory lock - prefer this over separate
    /// [`read_charge1`](Self::read_charge1) / [`read_time1`](Self::read_time1) calls when
    /// charge and elapsed time must line up (e.g. state-of-charge integration).
    fn read_accumulators1(&mut self) -> Result<Accumulators, Self::Error>;

    /// Reads channel 2's charge, energy and time-base in a single coherent 16-byte burst
    /// (row `0x10-0x1F`). See [`read_accumulators1`](Self::read_accumulators1).
    fn read_accumulators2(&mut self) -> Result<Accumulators, Self::Error>;

    /// Sends a broadcast ADCV (0x0260) which triggers a fast single-shot conversion on
    /// every device that recognises it - both the LTC2949 (per its FACTRL configuration)
    /// and any LTC68xx cell monitors on the same isoSPI bus. Use this when synchronous
    /// measurements with the cell monitors are required.
    ///
    /// **Cross-task hazard:** because this is a *broadcast*, it also (re)starts conversions
    /// on the cell-monitor chain. If another task owns the cell-monitor conversion schedule
    /// (as in a BMS where a separate task drives the LTC68xx ADC), calling this from the
    /// meter task will restart an in-flight chain conversion and corrupt its timing. In that
    /// design, run the LTC2949 in slow continuous mode (`OPCTRL.CONT`) and read results
    /// without this broadcast, or route the single shared ADCV through the conversion task's
    /// schedule.
    fn trigger_adcv_broadcast(&mut self) -> Result<(), Self::Error>;
}

/// LTC2949 client for the addressable, parallel-to-daisy-chain topology
/// (datasheet Figure 12(B)). The device is reached directly via `DCMD`, so no
/// chain-length parameter is required.
///
/// The high-level operations live on the [`Ltc2949Client`] trait; generic FIFO drains are
/// inherent.
pub struct LTC2949<E, P> {
    link: Link<E, P>,
}

impl<E, P: PollMethod<E>> View for LTC2949<E, P> {
    type V = LinkView<E>;

    closed spec fn view(&self) -> LinkView<E> {
        self.link@
    }
}

impl<E> LTC2949<E, NoPolling> {
    /// Constructs an LTC2949 client. The LTC2949 is addressed directly via `DCMD`,
    /// whether it sits alone on the bus or in parallel with a cell-monitor chain.
    pub fn new(bus: SpiTranscript<E>) -> (client: Self)
        ensures
            client@ == (LinkView { page: None, end: Seq::empty(), bus: bus@ }),
    {
        LTC2949 { link: Link::new(bus, NoPolling {  }) }
    }
}

impl<E, P: PollMethod<E>> Ltc2949Client for LTC2949<E, P> {
    type Error = Error<E>;

    fn start_wake_up(&mut self) -> (result: Result<u32, Error<E>>)
        ensures
            final(self)@ == old(self)@.start_wake_up().1,
            result == crate::client::in_time(old(self)@.start_wake_up().0, T_BOOT_US),
    {
        match self.link.start_wake_up() {
            Err(error) => Err(error),
            Ok(_) => Ok(T_BOOT_US),
        }
    }

    fn confirm_wake_up(&mut self) -> (result: Result<(), Error<E>>)
        ensures
            (result, final(self)@) == old(self)@.confirm_wake_up(),
    {
        self.write_bytes(Page::Page0, Page0Reg::WkupAck.addr(), &crate::bytes::single(0x00))
    }

    fn wake_isospi(&mut self) -> (result: Result<u32, Error<E>>)
        ensures
            final(self)@ == old(self)@.wake_port().1,
            result == crate::client::in_time(old(self)@.wake_port().0, T_READY_US),
    {
        match self.link.wake_port() {
            Err(error) => Err(error),
            Ok(_) => Ok(T_READY_US),
        }
    }

    fn write_opctrl(&mut self, value: OpCtrl) -> (result: Result<(), Error<E>>)
        ensures
            (result, final(self)@) == old(self)@.write_opctrl(value@),
    {
        self.write_bytes(Page::Page0, Page0Reg::OpCtrl.addr(), &value.into_bytes())
    }

    fn read_opctrl(&mut self) -> (result: Result<OpCtrl, Error<E>>)
        ensures
            final(self)@ == old(self)@.read_byte(Page0Reg::OpCtrl.addr()).1,
            crate::link::yields(result, old(self)@.read_byte(Page0Reg::OpCtrl.addr()).0),
    {
        match self.link.read_byte(Page0Reg::OpCtrl.addr()) {
            Err(error) => Err(error),
            Ok(byte) => Ok(OpCtrl::from_bytes([byte])),
        }
    }

    fn write_factrl(&mut self, value: FaCtrl) -> (result: Result<(), Error<E>>)
        ensures
            (result, final(self)@) == old(self)@.write_factrl(value@),
    {
        self.write_bytes(Page::Page0, Page0Reg::FaCtrl.addr(), &value.into_bytes())
    }

    fn write_adcconf(&mut self, value: AdcConf) -> (result: Result<(), Error<E>>)
        ensures
            (result, final(self)@) == old(self)@.write_adcconf(value@),
    {
        self.write_bytes(Page::Page1, Page1Reg::AdcConf.addr(), &value.into_bytes())
    }

    fn write_fast_aux_mux(&mut self, mux_n: u8, mux_p: u8) -> (result: Result<(), Error<E>>)
        ensures
            (result, final(self)@) == old(self)@.write_fast_aux_mux(mux_n, mux_p),
    {
        self.write_bytes(Page::Page0, Page0Reg::FaMuxN.addr(), &crate::bytes::double(mux_n, mux_p))
    }

    fn write_ntc_coefficients(&mut self, channel: Channel, params: &NtcConfig) -> (result: Result<(), Error<E>>)
        ensures
            (result, final(self)@) == old(self)@.write_ntc_coefficients(channel, *params),
    {
        self.link.write_ntc_coefficients(channel, params)
    }

    fn write_shunt_tc(&mut self, channel: Channel, config: &ShuntTcConfig) -> (result: Result<(), Error<E>>)
        ensures
            (result, final(self)@) == old(self)@.write_shunt_tc(channel, *config),
    {
        self.link.write_shunt_tc(channel, config)
    }

    fn write_slot_mux(
        &mut self,
        slot: Channel,
        negative: MuxInput,
        positive: MuxInput,
    ) -> (result: Result<(), Error<E>>)
        ensures
            (result, final(self)@) == old(self)@.write_slot_mux(slot, negative, positive),
    {
        self.link.write_slot_mux(slot, negative, positive)
    }

    fn read_status(&mut self) -> (result: Result<u8, Error<E>>)
        ensures
            (result, final(self)@) == old(self)@.read_byte(Page0Reg::Status.addr()),
    {
        self.link.read_byte(Page0Reg::Status.addr())
    }

    fn read_faults(&mut self) -> (result: Result<u8, Error<E>>)
        ensures
            (result, final(self)@) == old(self)@.read_byte(Page0Reg::Faults.addr()),
    {
        self.link.read_byte(Page0Reg::Faults.addr())
    }

    fn read_extfaults(&mut self) -> (result: Result<u8, Error<E>>)
        ensures
            (result, final(self)@) == old(self)@.read_byte(Page0Reg::ExtFaults.addr()),
    {
        self.link.read_byte(Page0Reg::ExtFaults.addr())
    }

    fn request_memory_lock(&mut self) -> (result: Result<u32, Error<E>>)
        ensures
            final(self)@ == old(self)@.request_memory_lock().1,
            result == crate::client::in_time(old(self)@.request_memory_lock().0, T_MLCK_US),
    {
        match self.link.request_memory_lock() {
            Err(error) => Err(error),
            Ok(_) => Ok(T_MLCK_US),
        }
    }

    fn unlock_memory(&mut self) -> (result: Result<(), Error<E>>)
        ensures
            (result, final(self)@) == old(self)@.unlock_memory(),
    {
        self.link.unlock_memory()
    }

    fn read_current1(&mut self) -> (result: Result<i32, Error<E>>)
        ensures
            (crate::link::number(result), final(self)@) == old(self)@.read_signed(Page0Reg::Current1.addr(), 3),
    {
        self.link.read_signed_24(Page0Reg::Current1.addr())
    }

    fn read_current2(&mut self) -> (result: Result<i32, Error<E>>)
        ensures
            (crate::link::number(result), final(self)@) == old(self)@.read_signed(Page0Reg::Current2.addr(), 3),
    {
        self.link.read_signed_24(Page0Reg::Current2.addr())
    }

    fn read_power1(&mut self) -> (result: Result<i32, Error<E>>)
        ensures
            (crate::link::number(result), final(self)@) == old(self)@.read_signed(Page0Reg::Power1.addr(), 3),
    {
        self.link.read_signed_24(Page0Reg::Power1.addr())
    }

    fn read_power2(&mut self) -> (result: Result<i32, Error<E>>)
        ensures
            (crate::link::number(result), final(self)@) == old(self)@.read_signed(Page0Reg::Power2.addr(), 3),
    {
        self.link.read_signed_24(Page0Reg::Power2.addr())
    }

    fn read_bat(&mut self) -> (result: Result<i16, Error<E>>)
        ensures
            (crate::link::number(result), final(self)@) == old(self)@.read_signed(Page0Reg::Bat.addr(), 2),
    {
        self.link.read_signed_16(Page0Reg::Bat.addr())
    }

    fn read_temp(&mut self) -> (result: Result<i16, Error<E>>)
        ensures
            (crate::link::number(result), final(self)@) == old(self)@.read_signed(Page0Reg::Temp.addr(), 2),
    {
        self.link.read_signed_16(Page0Reg::Temp.addr())
    }

    fn read_vcc(&mut self) -> (result: Result<i16, Error<E>>)
        ensures
            (crate::link::number(result), final(self)@) == old(self)@.read_signed(Page0Reg::Vcc.addr(), 2),
    {
        self.link.read_signed_16(Page0Reg::Vcc.addr())
    }

    fn read_slot1(&mut self) -> (result: Result<i16, Error<E>>)
        ensures
            (crate::link::number(result), final(self)@) == old(self)@.read_signed(Page0Reg::Slot1.addr(), 2),
    {
        self.link.read_signed_16(Page0Reg::Slot1.addr())
    }

    fn read_slot2(&mut self) -> (result: Result<i16, Error<E>>)
        ensures
            (crate::link::number(result), final(self)@) == old(self)@.read_signed(Page0Reg::Slot2.addr(), 2),
    {
        self.link.read_signed_16(Page0Reg::Slot2.addr())
    }

    fn read_charge1(&mut self) -> (result: Result<i64, Error<E>>)
        ensures
            (crate::link::number(result), final(self)@) == old(self)@.read_signed(Page0Reg::Charge1.addr(), 6),
    {
        self.link.read_signed_48(Page0Reg::Charge1.addr())
    }

    fn read_charge2(&mut self) -> (result: Result<i64, Error<E>>)
        ensures
            (crate::link::number(result), final(self)@) == old(self)@.read_signed(Page0Reg::Charge2.addr(), 6),
    {
        self.link.read_signed_48(Page0Reg::Charge2.addr())
    }

    fn read_charge3(&mut self) -> (result: Result<i64, Error<E>>)
        ensures
            (crate::link::number(result), final(self)@) == old(self)@.read_signed(Page0Reg::Charge3.addr(), 8),
    {
        self.link.read_signed_64(Page0Reg::Charge3.addr())
    }

    fn read_energy1(&mut self) -> (result: Result<i64, Error<E>>)
        ensures
            (crate::link::number(result), final(self)@) == old(self)@.read_signed(Page0Reg::Energy1.addr(), 6),
    {
        self.link.read_signed_48(Page0Reg::Energy1.addr())
    }

    fn read_energy2(&mut self) -> (result: Result<i64, Error<E>>)
        ensures
            (crate::link::number(result), final(self)@) == old(self)@.read_signed(Page0Reg::Energy2.addr(), 6),
    {
        self.link.read_signed_48(Page0Reg::Energy2.addr())
    }

    fn read_energy4(&mut self) -> (result: Result<i64, Error<E>>)
        ensures
            (crate::link::number(result), final(self)@) == old(self)@.read_signed(Page0Reg::Energy4.addr(), 8),
    {
        self.link.read_signed_64(Page0Reg::Energy4.addr())
    }

    fn read_time1(&mut self) -> (result: Result<u32, Error<E>>)
        ensures
            (crate::link::number(result), final(self)@) == old(self)@.read_unsigned(Page0Reg::Time1.addr(), 4),
    {
        self.link.read_unsigned_32(Page0Reg::Time1.addr())
    }

    fn read_time2(&mut self) -> (result: Result<u32, Error<E>>)
        ensures
            (crate::link::number(result), final(self)@) == old(self)@.read_unsigned(Page0Reg::Time2.addr(), 4),
    {
        self.link.read_unsigned_32(Page0Reg::Time2.addr())
    }

    fn read_time3(&mut self) -> (result: Result<u32, Error<E>>)
        ensures
            (crate::link::number(result), final(self)@) == old(self)@.read_unsigned(Page0Reg::Time3.addr(), 4),
    {
        self.link.read_unsigned_32(Page0Reg::Time3.addr())
    }

    fn read_time4(&mut self) -> (result: Result<u32, Error<E>>)
        ensures
            (crate::link::number(result), final(self)@) == old(self)@.read_unsigned(Page0Reg::Time4.addr(), 4),
    {
        self.link.read_unsigned_32(Page0Reg::Time4.addr())
    }

    fn read_accumulators1(&mut self) -> (result: Result<Accumulators, Error<E>>)
        ensures
            final(self)@ == old(self)@.read_accumulators(Page0Reg::Charge1.addr()).1,
            crate::link::yields(result, old(self)@.read_accumulators(Page0Reg::Charge1.addr()).0),
    {
        self.read_accumulator_row(Page0Reg::Charge1.addr())
    }

    fn read_accumulators2(&mut self) -> (result: Result<Accumulators, Error<E>>)
        ensures
            final(self)@ == old(self)@.read_accumulators(Page0Reg::Charge2.addr()).1,
            crate::link::yields(result, old(self)@.read_accumulators(Page0Reg::Charge2.addr()).0),
    {
        self.read_accumulator_row(Page0Reg::Charge2.addr())
    }

    fn trigger_adcv_broadcast(&mut self) -> (result: Result<(), Error<E>>)
        ensures
            (result, final(self)@) == old(self)@.send_cmd16(0x0260),
    {
        self.link.send_cmd16(0x0260)
    }
}

/// FIFO drains, generic over the sample count `N`, and framing.
impl<E, P: PollMethod<E>> LTC2949<E, P> {
    /// Constructs an LTC2949 client that ends its commands as `poll_method` says.
    pub fn with_polling(bus: SpiTranscript<E>, poll_method: P) -> (client: Self)
        ensures
            client@ == (LinkView { page: None, end: poll_method.end_actions(), bus: bus@ }),
    {
        LTC2949 { link: Link::new(bus, poll_method) }
    }

    /// The link that carries the commands.
    pub fn link(&self) -> (link: &Link<E, P>)
        ensures
            link@ == self@,
    {
        &self.link
    }

    /// The link that carries the commands, for the host to enter replies.
    pub fn link_mut(&mut self) -> (link: &mut Link<E, P>)
        ensures
            link@ == old(self)@,
            final(self)@ == final(link)@,
    {
        &mut self.link
    }

    /// Drains up to `N` samples from the I1 FIFO. Reads stop at the first sample that is not
    /// `Valid`, which **is** included as the final element so the caller can inspect its `tag`:
    /// [`ReadOverrun`](FifoTag::ReadOverrun) means the FIFO held no new data (its `raw` is stale),
    /// [`WriteOverrun`](FifoTag::WriteOverrun) means the FIFO overflowed (its `raw` is valid). All
    /// preceding elements are valid samples.
    ///
    /// Each FIFO sample is three bytes: MSB, LSB, TAG (datasheet Table 29).
    pub fn read_fifo_i1<const N: usize>(&mut self) -> (result: Result<heapless::Vec<FifoSample, N>, Error<E>>)
        ensures
            final(self)@ == old(self)@.drain(0xF7, N as nat, 1).1,
            crate::fifo::yields_samples(result, old(self)@.drain(0xF7, N as nat, 1).0),
    {
        crate::fifo::drain_fifo(&mut self.link, Page0Reg::FifoI1.addr(), 1)
    }

    /// Drains up to `N` samples from the I2 FIFO.
    pub fn read_fifo_i2<const N: usize>(&mut self) -> (result: Result<heapless::Vec<FifoSample, N>, Error<E>>)
        ensures
            final(self)@ == old(self)@.drain(0xF8, N as nat, 1).1,
            crate::fifo::yields_samples(result, old(self)@.drain(0xF8, N as nat, 1).0),
    {
        crate::fifo::drain_fifo(&mut self.link, Page0Reg::FifoI2.addr(), 1)
    }

    /// Drains up to `N` samples from the BAT (P1/P2 voltage-mode) FIFO.
    pub fn read_fifo_bat<const N: usize>(&mut self) -> (result: Result<heapless::Vec<FifoSample, N>, Error<E>>)
        ensures
            final(self)@ == old(self)@.drain(0xF9, N as nat, 1).1,
            crate::fifo::yields_samples(result, old(self)@.drain(0xF9, N as nat, 1).0),
    {
        crate::fifo::drain_fifo(&mut self.link, Page0Reg::FifoBat.addr(), 1)
    }

    /// Drains up to `N` samples from the AUX FIFO.
    pub fn read_fifo_aux<const N: usize>(&mut self) -> (result: Result<heapless::Vec<FifoSample, N>, Error<E>>)
        ensures
            final(self)@ == old(self)@.drain(0xFA, N as nat, 1).1,
            crate::fifo::yields_samples(result, old(self)@.drain(0xFA, N as nat, 1).0),
    {
        crate::fifo::drain_fifo(&mut self.link, Page0Reg::FifoAux.addr(), 1)
    }

    /// Reads a full 16-byte accumulator row (charge, energy, time) in one coherent burst.
    /// `addr` is the row's charge address (`0x00` for channel 1, `0x10` for channel 2); the
    /// device auto-increments through energy (`+0x06`) and time (`+0x0C`).
    fn read_accumulator_row(&mut self, addr: u8) -> (result: Result<Accumulators, Error<E>>)
        ensures
            final(self)@ == old(self)@.read_accumulators(addr).1,
            crate::link::yields(result, old(self)@.read_accumulators(addr).0),
    {
        match self.link.read_accumulator_row(addr) {
            Err(error) => Err(error),
            Ok(row) => Ok(
                Accumulators { charge: row.charge.raw(), energy: row.energy.raw(), time: row.time.raw() },
            ),
        }
    }

    /// Writes `data` of at most one PEC group to `addr` on `page`.
    fn write_bytes(&mut self, page: Page, addr: u8, data: &[u8]) -> (result: Result<(), Error<E>>)
        requires
            data@.len() <= 16,
        ensures
            (result, final(self)@) == old(self)@.write_register(page, addr, data@),
    {
        // REGSCTRL writes are themselves the page-switch mechanism.
        if addr != Page0Reg::RegsCtrl.addr() {
            match self.link.select_page(page) {
                Err(error) => {
                    return Err(error);
                },
                Ok(_) => {},
            }
        }
        self.dcmd_write(addr, data)
    }

    /// Sends `data` in DCMD write transactions. More than 16 data bytes are split into one
    /// command per PEC group.
    pub fn dcmd_write(&mut self, addr: u8, data: &[u8]) -> (result: Result<(), Error<E>>)
        ensures
            (result, final(self)@) == old(self)@.write_groups(addr, data@),
        decreases data@.len(),
    {
        if data.len() <= crate::dcmd::N_PER_PEC {
            return self.link.write_group(addr, data);
        }
        let group = vstd::slice::slice_subrange(data, 0, crate::dcmd::N_PER_PEC);
        let rest = vstd::slice::slice_subrange(data, crate::dcmd::N_PER_PEC, data.len());
        proof {
            assert(group@ =~= data@.take(16));
            assert(rest@ =~= data@.skip(16));
        }
        match self.link.write_group(addr, group) {
            Err(error) => Err(error),
            Ok(_) => self.dcmd_write(addr.wrapping_add(16), rest),
        }
    }

    /// Reads `n` bytes in direct `DCMD` reads. More than 16 bytes are split into one command
    /// per PEC group, each at the advanced address.
    pub fn dcmd_read(&mut self, addr: u8, n: usize) -> (result: Result<Vec<u8>, Error<E>>)
        ensures
            final(self)@ == old(self)@.read_groups(addr, n as nat).1,
            crate::link::yields(result, old(self)@.read_groups(addr, n as nat).0),
            result matches Ok(data) ==> data@.len() == n,
        decreases n,
    {
        if n <= crate::dcmd::N_PER_PEC {
            return self.link.read_group(addr, n);
        }
        let mut data = match self.link.read_group(addr, crate::dcmd::N_PER_PEC) {
            Err(error) => {
                return Err(error);
            },
            Ok(data) => data,
        };
        let ghost first = data@;
        match self.dcmd_read(addr.wrapping_add(16), n - crate::dcmd::N_PER_PEC) {
            Err(error) => Err(error),
            Ok(rest) => {
                data.extend_from_slice(rest.as_slice());
                proof {
                    assert(data@ =~= first + rest@);
                }
                Ok(data)
            },
        }
    }
}

} // verus!
