//! Typed reads of PAGE0 registers.
use vstd::prelude::*;

use crate::error::Error;
use crate::link::{Link, LinkView};
use crate::measurements::{AccumulatedCharge, AccumulatedEnergy, AccumulatedTime, Accumulators, AccumulatorsView};
use crate::polling::PollMethod;
use crate::registers::Page;

verus! {

impl<E> LinkView<E> {
    /// Reads one byte of PAGE0.
    pub open spec fn read_byte(self, addr: u8) -> (Result<u8, Error<E>>, Self) {
        match self.read_register(Page::Page0, addr, 1) {
            (Err(error), failed) => (Err(error), failed),
            (Ok(data), read) => (Ok(data[0]), read),
        }
    }

    /// Reads a two's-complement number of `n` bytes of PAGE0.
    pub open spec fn read_signed(self, addr: u8, n: nat) -> (Result<int, Error<E>>, Self) {
        match self.read_register(Page::Page0, addr, n) {
            (Err(error), failed) => (Err(error), failed),
            (Ok(data), read) => (Ok(crate::bytes::signed(data)), read),
        }
    }

    /// Reads an unsigned number of `n` bytes of PAGE0.
    pub open spec fn read_unsigned(self, addr: u8, n: nat) -> (Result<int, Error<E>>, Self) {
        match self.read_register(Page::Page0, addr, n) {
            (Err(error), failed) => (Err(error), failed),
            (Ok(data), read) => (Ok(crate::bytes::unsigned(data) as int), read),
        }
    }

    /// Reads the row of accumulators that starts at `addr` in one burst.
    pub open spec fn read_accumulators(self, addr: u8) -> (Result<AccumulatorsView, Error<E>>, Self) {
        match self.read_register(Page::Page0, addr, 16) {
            (Err(error), failed) => (Err(error), failed),
            (Ok(data), read) => (Ok(crate::measurements::accumulators_in(data)), read),
        }
    }
}

impl<E, P: PollMethod<E>> Link<E, P> {
    /// Reads one byte of PAGE0.
    pub fn read_byte(&mut self, addr: u8) -> (result: Result<u8, Error<E>>)
        ensures
            (result, final(self)@) == old(self)@.read_byte(addr),
    {
        match self.read_register(Page::Page0, addr, 1) {
            Err(error) => Err(error),
            Ok(data) => Ok(data[0]),
        }
    }

    fn read_signed(&mut self, addr: u8, n: usize) -> (result: Result<i64, Error<E>>)
        requires
            0 < n <= 8,
        ensures
            (crate::link::number(result), final(self)@) == old(self)@.read_signed(addr, n as nat),
            result matches Ok(value) ==> crate::bytes::fits_signed(value as int, n as nat),
    {
        match self.read_register(Page::Page0, addr, n) {
            Err(error) => Err(error),
            Ok(data) => Ok(crate::bytes::signed_from_be(data.as_slice())),
        }
    }

    /// Reads a signed 16-bit number of PAGE0.
    pub fn read_signed_16(&mut self, addr: u8) -> (result: Result<i16, Error<E>>)
        ensures
            (crate::link::number(result), final(self)@) == old(self)@.read_signed(addr, 2),
    {
        proof {
            reveal_with_fuel(crate::bytes::span, 3);
        }
        match self.read_signed(addr, 2) {
            Err(error) => Err(error),
            Ok(value) => Ok(value as i16),
        }
    }

    /// Reads a signed 24-bit number of PAGE0.
    pub fn read_signed_24(&mut self, addr: u8) -> (result: Result<i32, Error<E>>)
        ensures
            (crate::link::number(result), final(self)@) == old(self)@.read_signed(addr, 3),
    {
        proof {
            reveal_with_fuel(crate::bytes::span, 4);
        }
        match self.read_signed(addr, 3) {
            Err(error) => Err(error),
            Ok(value) => Ok(value as i32),
        }
    }

    /// Reads an unsigned 32-bit number of PAGE0.
    pub fn read_unsigned_32(&mut self, addr: u8) -> (result: Result<u32, Error<E>>)
        ensures
            (crate::link::number(result), final(self)@) == old(self)@.read_unsigned(addr, 4),
    {
        match self.read_register(Page::Page0, addr, 4) {
            Err(error) => Err(error),
            Ok(data) => {
                proof {
                    crate::bytes::unsigned_in_range(data@);
                    reveal_with_fuel(crate::bytes::span, 5);
                }
                Ok(crate::bytes::unsigned_from_be(data.as_slice()) as u32)
            },
        }
    }

    /// Reads a signed 48-bit number of PAGE0.
    pub fn read_signed_48(&mut self, addr: u8) -> (result: Result<i64, Error<E>>)
        ensures
            (crate::link::number(result), final(self)@) == old(self)@.read_signed(addr, 6),
    {
        self.read_signed(addr, 6)
    }

    /// Reads a signed 64-bit number of PAGE0.
    pub fn read_signed_64(&mut self, addr: u8) -> (result: Result<i64, Error<E>>)
        ensures
            (crate::link::number(result), final(self)@) == old(self)@.read_signed(addr, 8),
    {
        self.read_signed(addr, 8)
    }

    /// Reads a full 16-byte accumulator row (charge, energy, time) in one coherent burst,
    /// starting at the row's charge address.
    pub fn read_accumulator_row(&mut self, addr: u8) -> (result: Result<Accumulators, Error<E>>)
        ensures
            final(self)@ == old(self)@.read_accumulators(addr).1,
            crate::link::yields(result, old(self)@.read_accumulators(addr).0),
    {
        match self.read_register(Page::Page0, addr, 16) {
            Err(error) => Err(error),
            Ok(row) => {
                let charge = crate::bytes::signed_from_be(vstd::slice::slice_subrange(row.as_slice(), 0, 6));
                let energy = crate::bytes::signed_from_be(vstd::slice::slice_subrange(row.as_slice(), 6, 12));
                let time = crate::bytes::unsigned_from_be(vstd::slice::slice_subrange(row.as_slice(), 12, 16));
                proof {
                    crate::bytes::unsigned_in_range(row@.subrange(12, 16));
                    reveal_with_fuel(crate::bytes::span, 5);
                }
                Ok(
                    Accumulators {
                        charge: AccumulatedCharge::from_raw(charge),
                        energy: AccumulatedEnergy::from_raw(energy),
                        time: AccumulatedTime::from_raw(time as u32),
                    },
                )
            },
        }
    }
}

} // verus!
