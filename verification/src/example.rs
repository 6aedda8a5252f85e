//! SPI device mock and delay for examples.
use vstd::prelude::*;

use crate::bus::Action;
use crate::fifo::{FifoSample, FifoTag};
use crate::pec15::PEC15;

verus! {

/// An SPI device that answers register reads like an LTC2949 with nominal measurements.
#[derive(Copy, Clone, Eq, PartialEq, Debug)]
pub struct ExampleSPIDevice;

impl Default for ExampleSPIDevice {
    fn default() -> (device: Self)
        ensures
            device == ExampleSPIDevice,
    {
        ExampleSPIDevice
    }
}

/// The first `len` bytes of a 16-byte row.
pub open spec fn row_prefix(row: Seq<u8>, len: nat) -> Seq<u8> {
    if len < row.len() {
        row.take(len as int)
    } else {
        row
    }
}

/// What a read of `len` bytes at `addr` finds before the zeros.
pub open spec fn image(addr: u8, len: nat) -> Seq<u8> {
    match addr {
        // C1 = 10,000,000; E1 = 10,000; TB1 = 10,000.
        0x00 => row_prefix(
            seq![
                0x00u8,
                0x00,
                0x00,
                0x98,
                0x96,
                0x80,
                0x00,
                0x00,
                0x00,
                0x00,
                0x27,
                0x10,
                0x00,
                0x00,
                0x27,
                0x10,
            ],
            len,
        ),
        // E1 = 10,000.
        0x06 => seq![0x00u8, 0x00, 0x00, 0x00, 0x27, 0x10],
        // TB1 = 10,000.
        0x0C => seq![0x00u8, 0x00, 0x27, 0x10],
        // C2 = -6,000,000; E2 = -6,000; TB2 = 12,000.
        0x10 => row_prefix(
            seq![
                0xFFu8,
                0xFF,
                0xFF,
                0xA4,
                0x72,
                0x80,
                0xFF,
                0xFF,
                0xFF,
                0xFF,
                0xE8,
                0x90,
                0x00,
                0x00,
                0x2E,
                0xE0,
            ],
            len,
        ),
        // E2 = -6,000.
        0x16 => seq![0xFFu8, 0xFF, 0xFF, 0xFF, 0xE8, 0x90],
        // TB2 = 12,000.
        0x1C => seq![0x00u8, 0x00, 0x2E, 0xE0],
        // C3 = 4,000,000.
        0x24 => seq![0x00u8, 0x00, 0x00, 0x00, 0x00, 0x3D, 0x09, 0x00],
        // TB3 = 15,000.
        0x2C => seq![0x00u8, 0x00, 0x3A, 0x98],
        // TB4 = 20,000.
        0x3C => seq![0x00u8, 0x00, 0x4E, 0x20],
        // STATUS: result registers updated, no errors.
        0x80 => seq![0x10u8],
        // I1 = 1,000 -> 9.5 A at 100 uOhm.
        0x90 => seq![0x00u8, 0x03, 0xE8],
        // P1 = 1,000,000.
        0x93 => seq![0x0Fu8, 0x42, 0x40],
        // I2 = -500 -> -4.75 A at 100 uOhm.
        0x96 => seq![0xFFu8, 0xFE, 0x0C],
        // P2 = -500,000.
        0x99 => seq![0xF8u8, 0x5E, 0xE0],
        // I1AVG = 4,000 -> 9.5 A.
        0x9C => seq![0x00u8, 0x0F, 0xA0],
        // BAT: 12_345 raw -> 4_629_375 uV.
        0xA0 => seq![0x30u8, 0x39],
        // TEMP: 1,491 raw -> 25.05 C.
        0xA2 => seq![0x05u8, 0xD3],
        // VCC: 1,460 raw -> 3.2996 V.
        0xA4 => seq![0x05u8, 0xB4],
        // SLOT1: 125 raw -> 25.0 C.
        0xA6 => seq![0x00u8, 0x7D],
        // I2AVG = -2,000 -> -4.75 A.
        0xAC => seq![0xFFu8, 0xF8, 0x30],
        // One FIFO sample and the terminator, or the terminator alone.
        0xF7 => if len >= 6 {
            seq![0x01u8, 0x00, 0x00, 0x00, 0x00, 0x80]
        } else if len >= 3 {
            seq![0x00u8, 0x00, 0x80]
        } else {
            Seq::empty()
        },
        _ => Seq::empty(),
    }
}

/// `bytes` followed by zeros, 16 bytes in all.
pub open spec fn zero_padded(bytes: Seq<u8>) -> Seq<u8> {
    Seq::new(
        16,
        |i: int|
            if i < bytes.len() {
                bytes[i]
            } else {
                0u8
            },
    )
}

/// Whether `frame` is a direct command with room for data.
pub open spec fn is_read(frame: Seq<u8>) -> bool {
    frame.len() >= 7 && frame[0] == 0xFE
}

/// The data in the answer to `frame`.
pub open spec fn answered_data(frame: Seq<u8>) -> Seq<u8> {
    zero_padded(image(frame[1], (frame.len() - 7) as nat)).take(frame.len() - 7)
}

/// The `total` bytes received in answer to `frame`: five zeros, the data, its PEC, zeros.
pub open spec fn answer(frame: Seq<u8>, total: nat) -> Seq<u8> {
    let body = seq![0u8, 0u8, 0u8, 0u8, 0u8] + answered_data(frame) + crate::pec15::pec(answered_data(frame));
    Seq::new(
        total,
        |i: int|
            if i < body.len() {
                body[i]
            } else {
                0u8
            },
    )
}

fn padded(bytes: &[u8]) -> (data: [u8; 16])
    requires
        bytes@.len() <= 16,
    ensures
        data@ == zero_padded(bytes@),
{
    let mut data = [0u8;16];
    let mut i: usize = 0;
    while i < bytes.len()
        invariant
            i <= bytes@.len() <= 16,
            data@.len() == 16,
            forall|j: int| 0 <= j < i ==> data@[j] == bytes@[j],
            forall|j: int| i <= j < 16 ==> data@[j] == 0,
        decreases bytes@.len() - i,
    {
        data[i] = bytes[i];
        i = i + 1;
    }
    proof {
        assert(data@ =~= zero_padded(bytes@));
    }
    data
}

fn padded_row(row: [u8; 16], len: usize) -> (data: [u8; 16])
    requires
        len <= 16,
    ensures
        data@ == zero_padded(row_prefix(row@, len as nat)),
{
    let part = vstd::slice::slice_subrange(&row, 0, len);
    proof {
        assert(part@ =~= row_prefix(row@, len as nat));
    }
    padded(part)
}

impl ExampleSPIDevice {
    /// Answers one action of a client.
    pub fn transaction(&self, action: &Action) -> (reply: Vec<u8>)
        requires
            action@ matches crate::bus::ActionView::Transfer(frame) ==> is_read(frame) ==> frame.len() <= 23,
            action@ !is ReleaseCs,
        ensures
            reply@ == (match action@ {
                crate::bus::ActionView::Transfer(frame) => if is_read(frame) {
                    answer(frame, frame.len())
                } else {
                    Seq::new(frame.len(), |i: int| 0u8)
                },
                _ => Seq::empty(),
            }),
    {
        match action {
            Action::Transfer(frame) => {
                let mut reply: Vec<u8> = Vec::new();
                let mut i: usize = 0;
                while i < frame.len()
                    invariant
                        i <= frame@.len(),
                        reply@ == Seq::new(i as nat, |j: int| 0u8),
                    decreases frame@.len() - i,
                {
                    reply.push(0);
                    i = i + 1;
                    proof {
                        assert(reply@ =~= Seq::new(i as nat, |j: int| 0u8));
                    }
                }
                Self::transfer(&mut reply, frame.as_slice());
                reply
            },
            _ => {
                let reply: Vec<u8> = Vec::new();
                proof {
                    assert(reply@ =~= Seq::empty());
                }
                reply
            },
        }
    }

    /// Fills `read` with what the device sends while `write` is clocked out.
    pub fn transfer(read: &mut Vec<u8>, write: &[u8])
        requires
            is_read(write@) ==> write@.len() <= 23 && write@.len() <= old(read)@.len(),
        ensures
            final(read)@ == (if is_read(write@) {
                answer(write@, old(read)@.len())
            } else {
                old(read)@
            }),
    {
        if write.len() < 7 || write[0] != 0xFE {
            return ;
        }
        let addr = write[1];
        let data_len = write.len() - 7;
        let row = Self::data(addr, data_len);
        let data = vstd::slice::slice_subrange(&row, 0, data_len);
        let pec = PEC15::calc(data);
        proof {
            assert(data@ =~= answered_data(write@));
        }
        let total = read.len();
        let ghost wanted = answer(write@, total as nat);
        let mut i: usize = 0;
        while i < total
            invariant
                i <= total,
                total == read@.len() == wanted.len(),
                data_len <= 16,
                data@.len() == data_len,
                data@ == answered_data(write@),
                pec@ == crate::pec15::pec(data@),
                wanted == answer(write@, total as nat),
                forall|j: int| 0 <= j < i ==> read@[j] == wanted[j],
            decreases total - i,
        {
            let byte = if i < 5 {
                0
            } else if i < 5 + data_len {
                data[i - 5]
            } else if i < 7 + data_len {
                pec[i - 5 - data_len]
            } else {
                0
            };
            read.set(i, byte);
            i = i + 1;
        }
        proof {
            assert(read@ =~= wanted);
        }
    }

    /// The data that a read of `len` bytes at `addr` finds, padded with zeros.
    pub fn data(addr: u8, len: usize) -> (data: [u8; 16])
        requires
            addr == 0x00 || addr == 0x10 ==> len <= 16,
        ensures
            data@ == zero_padded(image(addr, len as nat)),
    {
        match addr {
            0x00 => padded_row(
                [0x00, 0x00, 0x00, 0x98, 0x96, 0x80, 0x00, 0x00, 0x00, 0x00, 0x27, 0x10, 0x00, 0x00, 0x27, 0x10],
                len,
            ),
            0x06 => padded(&[0x00, 0x00, 0x00, 0x00, 0x27, 0x10]),
            0x0C => padded(&[0x00, 0x00, 0x27, 0x10]),
            0x10 => padded_row(
                [0xFF, 0xFF, 0xFF, 0xA4, 0x72, 0x80, 0xFF, 0xFF, 0xFF, 0xFF, 0xE8, 0x90, 0x00, 0x00, 0x2E, 0xE0],
                len,
            ),
            0x16 => padded(&[0xFF, 0xFF, 0xFF, 0xFF, 0xE8, 0x90]),
            0x1C => padded(&[0x00, 0x00, 0x2E, 0xE0]),
            0x24 => padded(&[0x00, 0x00, 0x00, 0x00, 0x00, 0x3D, 0x09, 0x00]),
            0x2C => padded(&[0x00, 0x00, 0x3A, 0x98]),
            0x3C => padded(&[0x00, 0x00, 0x4E, 0x20]),
            0x80 => padded(&[0x10]),
            0x90 => padded(&[0x00, 0x03, 0xE8]),
            0x93 => padded(&[0x0F, 0x42, 0x40]),
            0x96 => padded(&[0xFF, 0xFE, 0x0C]),
            0x99 => padded(&[0xF8, 0x5E, 0xE0]),
            0x9C => padded(&[0x00, 0x0F, 0xA0]),
            0xA0 => padded(&[0x30, 0x39]),
            0xA2 => padded(&[0x05, 0xD3]),
            0xA4 => padded(&[0x05, 0xB4]),
            0xA6 => padded(&[0x00, 0x7D]),
            0xAC => padded(&[0xFF, 0xF8, 0x30]),
            0xF7 => if len >= 6 {
                padded(&[0x01, 0x00, 0x00, 0x00, 0x00, 0x80])
            } else if len >= 3 {
                padded(&[0x00, 0x00, 0x80])
            } else {
                padded(&[])
            },
            _ => padded(&[]),
        }
    }
}

/// A delay that only counts the time that it was asked to wait.
#[derive(Copy, Clone, Eq, PartialEq, Structural, Debug)]
pub struct ExampleDelay {
    elapsed_us: u64,
}

impl View for ExampleDelay {
    type V = nat;

    closed spec fn view(&self) -> nat {
        self.elapsed_us as nat
    }
}

impl Default for ExampleDelay {
    fn default() -> (delay: Self)
        ensures
            delay@ == 0,
    {
        ExampleDelay { elapsed_us: 0 }
    }
}

/// The whole microseconds that `ns` nanoseconds are counted as.
pub open spec fn counted_us(ns: u32) -> int {
    (ns + 999) / 1000
}

/// Nanoseconds are counted as the fewest whole microseconds that are no shorter.
pub proof fn nanoseconds_are_rounded_up(ns: u32)
    ensures
        ns <= 1000 * counted_us(ns) < ns + 1000,
{
}

impl ExampleDelay {
    /// The microseconds waited so far.
    pub fn elapsed_us(&self) -> (elapsed: u64)
        ensures
            elapsed == self@,
    {
        self.elapsed_us
    }

    /// Waits `ns` nanoseconds, counted in whole microseconds and rounded up.
    pub fn delay_ns(&mut self, ns: u32)
        requires
            old(self)@ + counted_us(ns) <= u64::MAX,
        ensures
            final(self)@ == old(self)@ + counted_us(ns),
    {
        self.elapsed_us = self.elapsed_us + (ns as u64 + 999) / 1000;
    }

    /// Waits `us` microseconds.
    pub fn delay_us(&mut self, us: u32)
        requires
            old(self)@ + us <= u64::MAX,
        ensures
            final(self)@ == old(self)@ + us,
    {
        self.elapsed_us = self.elapsed_us + us as u64;
    }

    /// Waits `ms` milliseconds.
    pub fn delay_ms(&mut self, ms: u32)
        requires
            old(self)@ + ms * 1000 <= u64::MAX,
        ensures
            final(self)@ == old(self)@ + ms * 1000,
    {
        self.elapsed_us = self.elapsed_us + ms as u64 * 1000;
    }
}

/// The data that a read of `len` bytes at `addr` finds.
pub open spec fn found(addr: u8, len: nat) -> Seq<u8> {
    zero_padded(image(addr, len)).take(len as int)
}

/// A read of a register is answered by its data with the PEC of these, behind five zeros, so that
/// a client takes it.
pub proof fn reads_are_answered(addr: u8, len: nat)
    requires
        len <= 16,
    ensures
        ({
            let frame = crate::dcmd::read_frame(addr, len);
            let reply = answer(frame, frame.len());
            &&& is_read(frame)
            &&& reply.len() == frame.len()
            &&& crate::laws::is_reply_with(reply, found(addr, len))
        }),
{
    let frame = crate::dcmd::read_frame(addr, len);
    let reply = answer(frame, frame.len());
    let data = found(addr, len);
    assert(crate::pec15::pec(seq![crate::dcmd::DCMD, addr]).len() == 2);
    assert(frame.len() == len + 7);
    assert(frame[0] == 0xFE && frame[1] == addr);
    assert(data.len() == len);
    assert(crate::pec15::pec(data).len() == 2);
    assert(reply.skip(5) =~= data + crate::pec15::pec(data));
}

/// The registers hold the nominal measurements, behind which a longer read finds zeros.
pub proof fn nominal_results_are_found()
    ensures
        crate::bytes::signed(found(0x90, 3)) == 1_000,
        crate::bytes::signed(found(0x93, 3)) == 1_000_000,
        crate::bytes::signed(found(0x96, 3)) == -500,
        crate::bytes::signed(found(0x99, 3)) == -500_000,
        crate::bytes::signed(found(0x9C, 3)) == 4_000,
        crate::bytes::signed(found(0xAC, 3)) == -2_000,
        crate::bytes::signed(found(0xA0, 2)) == 12_345,
        crate::bytes::signed(found(0xA2, 2)) == 1_491,
        crate::bytes::signed(found(0xA4, 2)) == 1_460,
        crate::bytes::signed(found(0xA6, 2)) == 125,
        found(0x80, 1) == seq![0x10u8],
{
    crate::bytes::spans_are_powers();
    assert(found(0x90, 3) =~= seq![0x00u8, 0x03, 0xE8]);
    lemma_bytes_3(seq![0x00u8, 0x03, 0xE8]);
    assert(found(0x93, 3) =~= seq![0x0Fu8, 0x42, 0x40]);
    lemma_bytes_3(seq![0x0Fu8, 0x42, 0x40]);
    assert(found(0x96, 3) =~= seq![0xFFu8, 0xFE, 0x0C]);
    lemma_bytes_3(seq![0xFFu8, 0xFE, 0x0C]);
    assert(found(0x99, 3) =~= seq![0xF8u8, 0x5E, 0xE0]);
    lemma_bytes_3(seq![0xF8u8, 0x5E, 0xE0]);
    assert(found(0x9C, 3) =~= seq![0x00u8, 0x0F, 0xA0]);
    lemma_bytes_3(seq![0x00u8, 0x0F, 0xA0]);
    assert(found(0xAC, 3) =~= seq![0xFFu8, 0xF8, 0x30]);
    lemma_bytes_3(seq![0xFFu8, 0xF8, 0x30]);
    assert(found(0xA0, 2) =~= seq![0x30u8, 0x39]);
    lemma_bytes_2(seq![0x30u8, 0x39]);
    assert(found(0xA2, 2) =~= seq![0x05u8, 0xD3]);
    lemma_bytes_2(seq![0x05u8, 0xD3]);
    assert(found(0xA4, 2) =~= seq![0x05u8, 0xB4]);
    lemma_bytes_2(seq![0x05u8, 0xB4]);
    assert(found(0xA6, 2) =~= seq![0x00u8, 0x7D]);
    lemma_bytes_2(seq![0x00u8, 0x7D]);
    assert(found(0x80, 1) =~= seq![0x10u8]);
}

/// The accumulators hold the nominal charges, energies and times.
pub proof fn nominal_accumulators_are_found()
    ensures
        crate::bytes::signed(found(0x00, 6)) == 10_000_000,
        crate::bytes::signed(found(0x06, 6)) == 10_000,
        crate::bytes::signed(found(0x10, 6)) == -6_000_000,
        crate::bytes::signed(found(0x16, 6)) == -6_000,
        crate::bytes::signed(found(0x24, 8)) == 4_000_000,
        crate::bytes::unsigned(found(0x0C, 4)) == 10_000,
        crate::bytes::unsigned(found(0x1C, 4)) == 12_000,
        crate::bytes::unsigned(found(0x2C, 4)) == 15_000,
        crate::bytes::unsigned(found(0x3C, 4)) == 20_000,
{
    crate::bytes::spans_are_powers();
    assert(found(0x00, 6) =~= seq![0x00u8, 0x00, 0x00, 0x98, 0x96, 0x80]);
    lemma_bytes_6(seq![0x00u8, 0x00, 0x00, 0x98, 0x96, 0x80]);
    assert(found(0x06, 6) =~= seq![0x00u8, 0x00, 0x00, 0x00, 0x27, 0x10]);
    lemma_bytes_6(seq![0x00u8, 0x00, 0x00, 0x00, 0x27, 0x10]);
    assert(found(0x10, 6) =~= seq![0xFFu8, 0xFF, 0xFF, 0xA4, 0x72, 0x80]);
    lemma_bytes_6(seq![0xFFu8, 0xFF, 0xFF, 0xA4, 0x72, 0x80]);
    assert(found(0x16, 6) =~= seq![0xFFu8, 0xFF, 0xFF, 0xFF, 0xE8, 0x90]);
    lemma_bytes_6(seq![0xFFu8, 0xFF, 0xFF, 0xFF, 0xE8, 0x90]);
    assert(found(0x24, 8) =~= seq![0x00u8, 0x00, 0x00, 0x00, 0x00, 0x3D, 0x09, 0x00]);
    lemma_bytes_8(seq![0x00u8, 0x00, 0x00, 0x00, 0x00, 0x3D, 0x09, 0x00]);
    assert(found(0x0C, 4) =~= seq![0x00u8, 0x00, 0x27, 0x10]);
    lemma_bytes_4(seq![0x00u8, 0x00, 0x27, 0x10]);
    assert(found(0x1C, 4) =~= seq![0x00u8, 0x00, 0x2E, 0xE0]);
    lemma_bytes_4(seq![0x00u8, 0x00, 0x2E, 0xE0]);
    assert(found(0x2C, 4) =~= seq![0x00u8, 0x00, 0x3A, 0x98]);
    lemma_bytes_4(seq![0x00u8, 0x00, 0x3A, 0x98]);
    assert(found(0x3C, 4) =~= seq![0x00u8, 0x00, 0x4E, 0x20]);
    lemma_bytes_4(seq![0x00u8, 0x00, 0x4E, 0x20]);
}

/// The number that 2 bytes hold.
proof fn lemma_bytes_2(bytes: Seq<u8>)
    requires
        bytes.len() == 2,
    ensures
        crate::bytes::unsigned(bytes) == bytes[0] * 0x100 + bytes[1],
{
    reveal_with_fuel(crate::bytes::unsigned, 3);
    assert(bytes.last() == bytes[1]);
    assert(bytes.drop_last().last() == bytes[0]);
}

/// The number that 3 bytes hold.
proof fn lemma_bytes_3(bytes: Seq<u8>)
    requires
        bytes.len() == 3,
    ensures
        crate::bytes::unsigned(bytes) == bytes[0] * 0x10000 + bytes[1] * 0x100 + bytes[2],
{
    reveal_with_fuel(crate::bytes::unsigned, 4);
    assert(bytes.last() == bytes[2]);
    assert(bytes.drop_last().last() == bytes[1]);
    assert(bytes.drop_last().drop_last().last() == bytes[0]);
}

/// The number that 4 bytes hold.
proof fn lemma_bytes_4(bytes: Seq<u8>)
    requires
        bytes.len() == 4,
    ensures
        crate::bytes::unsigned(bytes) == bytes[0] * 0x1000000 + bytes[1] * 0x10000 + bytes[2] * 0x100 + bytes[3],
{
    reveal_with_fuel(crate::bytes::unsigned, 5);
    assert(bytes.last() == bytes[3]);
    assert(bytes.drop_last().last() == bytes[2]);
    assert(bytes.drop_last().drop_last().last() == bytes[1]);
    assert(bytes.drop_last().drop_last().drop_last().last() == bytes[0]);
}

/// The number that 6 bytes hold.
proof fn lemma_bytes_6(bytes: Seq<u8>)
    requires
        bytes.len() == 6,
    ensures
        crate::bytes::unsigned(bytes) == bytes[0] * 0x10000000000 + bytes[1] * 0x100000000 + bytes[2] * 0x1000000 + bytes[3] * 0x10000 + bytes[4] * 0x100 + bytes[5],
{
    reveal_with_fuel(crate::bytes::unsigned, 7);
    assert(bytes.last() == bytes[5]);
    assert(bytes.drop_last().last() == bytes[4]);
    assert(bytes.drop_last().drop_last().last() == bytes[3]);
    assert(bytes.drop_last().drop_last().drop_last().last() == bytes[2]);
    assert(bytes.drop_last().drop_last().drop_last().drop_last().last() == bytes[1]);
    assert(bytes.drop_last().drop_last().drop_last().drop_last().drop_last().last() == bytes[0]);
}

/// The number that 8 bytes hold.
proof fn lemma_bytes_8(bytes: Seq<u8>)
    requires
        bytes.len() == 8,
    ensures
        crate::bytes::unsigned(bytes) == bytes[0] * 0x100000000000000 + bytes[1] * 0x1000000000000 + bytes[2] * 0x10000000000 + bytes[3] * 0x100000000 + bytes[4] * 0x1000000 + bytes[5] * 0x10000 + bytes[6] * 0x100 + bytes[7],
{
    reveal_with_fuel(crate::bytes::unsigned, 9);
    assert(bytes.last() == bytes[7]);
    assert(bytes.drop_last().last() == bytes[6]);
    assert(bytes.drop_last().drop_last().last() == bytes[5]);
    assert(bytes.drop_last().drop_last().drop_last().last() == bytes[4]);
    assert(bytes.drop_last().drop_last().drop_last().drop_last().last() == bytes[3]);
    assert(bytes.drop_last().drop_last().drop_last().drop_last().drop_last().last() == bytes[2]);
    assert(bytes.drop_last().drop_last().drop_last().drop_last().drop_last().drop_last().last() == bytes[1]);
    assert(bytes.drop_last().drop_last().drop_last().drop_last().drop_last().drop_last().drop_last().last() == bytes[0]);
}

/// A row holds its three accumulators one behind the other.
pub proof fn rows_hold_their_accumulators()
    ensures
        found(0x00, 16) == found(0x00, 6) + found(0x06, 6) + found(0x0C, 4),
        found(0x10, 16) == found(0x10, 6) + found(0x16, 6) + found(0x1C, 4),
{
    assert(found(0x00, 16) =~= found(0x00, 6) + found(0x06, 6) + found(0x0C, 4));
    assert(found(0x10, 16) =~= found(0x10, 6) + found(0x16, 6) + found(0x1C, 4));
}

/// The FIFO of I1 hands out one `Valid` sample of 256 and then a terminator, where two or more
/// samples are read at once, and the terminator where one is.
pub proof fn fifo_holds_one_sample(len: nat)
    requires
        len <= 16,
    ensures
        len >= 6 ==> crate::fifo::samples_in(found(0xF7, len), 2) == seq![
            FifoSample { raw: 256, tag: FifoTag::Valid },
            FifoSample { raw: 0, tag: FifoTag::Unknown(0x80) },
        ],
        3 <= len < 6 ==> crate::fifo::samples_in(found(0xF7, len), 1) == seq![
            FifoSample { raw: 0, tag: FifoTag::Unknown(0x80) },
        ],
{
    if len >= 6 {
        let data = found(0xF7, len).take(6);
        assert(data =~= seq![0x01u8, 0x00, 0x00, 0x00, 0x00, 0x80]);
        crate::fifo::samples_are_where_they_were_sent(data, 2, 0);
        crate::fifo::samples_are_where_they_were_sent(data, 2, 1);
        assert(found(0xF7, len).subrange(0, 2) =~= data.subrange(0, 2));
        assert(found(0xF7, len).subrange(3, 5) =~= data.subrange(3, 5));
        assert(crate::fifo::samples_in(found(0xF7, len), 2) =~= crate::fifo::samples_in(data, 2));
    } else if len >= 3 {
        let data = found(0xF7, len).take(3);
        assert(data =~= seq![0x00u8, 0x00, 0x80]);
        crate::fifo::samples_are_where_they_were_sent(data, 1, 0);
        assert(found(0xF7, len).subrange(0, 2) =~= data.subrange(0, 2));
        assert(crate::fifo::samples_in(found(0xF7, len), 1) =~= crate::fifo::samples_in(data, 1));
    }
}

} // verus!
