//! NTC linearisation, sense-resistor temperature compensation and the SLOT multiplexer.
use vstd::prelude::*;

use crate::config::{Channel, MuxInput, NtcConfig, ShuntTcConfig};
use crate::error::Error;
use crate::float24::Float24;
use crate::link::{Link, LinkView};
use crate::polling::PollMethod;
use crate::registers::{Page, RegAddressP0, RegAddressP1};

verus! {

/// The register of the negative input of a SLOT; that of the positive one follows it.
pub open spec fn slot_mux_register(slot: Channel) -> RegAddressP0 {
    match slot {
        Channel::One => RegAddressP0::Slot1MuxN,
        Channel::Two => RegAddressP0::Slot2MuxN,
    }
}

impl<E> LinkView<E> {
    /// Writes the reference resistor of an NTC and then its three coefficients in one burst.
    pub open spec fn write_ntc_coefficients(self, channel: Channel, params: NtcConfig) -> (Result<(), Error<E>>, Self) {
        let registers = match channel {
            Channel::One => (RegAddressP1::Rref1, RegAddressP1::Ntc1A),
            Channel::Two => (RegAddressP1::Rref2, RegAddressP1::Ntc2A),
        };
        self.write_two_registers(
            Page::Page1,
            registers.0.addr(),
            crate::float24::bytes_of(params.r_ref),
            registers.1.addr(),
            crate::float24::bytes_of(params.a) + crate::float24::bytes_of(params.b) + crate::float24::bytes_of(params.c),
        )
    }

    /// Writes the first-order coefficient and the reference temperature of a sense resistor in
    /// one burst, and then its second-order coefficient.
    pub open spec fn write_shunt_tc(self, channel: Channel, config: ShuntTcConfig) -> (Result<(), Error<E>>, Self) {
        let registers = match channel {
            Channel::One => (RegAddressP1::Rs1Tc, RegAddressP1::Rs1Tc2),
            Channel::Two => (RegAddressP1::Rs2Tc, RegAddressP1::Rs2Tc2),
        };
        self.write_two_registers(
            Page::Page1,
            registers.0.addr(),
            crate::float24::bytes_of(config.tc) + crate::float24::bytes_of(config.t_ref).take(2),
            registers.1.addr(),
            crate::float24::bytes_of(config.tc2),
        )
    }

    /// Writes the negative and the positive input of a SLOT in one burst.
    pub open spec fn write_slot_mux(self, slot: Channel, negative: MuxInput, positive: MuxInput) -> (
        Result<(), Error<E>>,
        Self,
    ) {
        self.write_register(Page::Page0, slot_mux_register(slot).addr(), seq![negative.code(), positive.code()])
    }
}

impl<E, P: PollMethod<E>> Link<E, P> {
    /// Writes the Steinhart-Hart coefficients and reference resistor for an NTC channel.
    ///
    /// `RREFn` is written as a single 3-byte burst at its dedicated address; the three
    /// coefficient registers (`NTCnA/B/C`) are contiguous on the page so they go out in
    /// one 9-byte burst.
    pub fn write_ntc_coefficients(&mut self, channel: Channel, params: &NtcConfig) -> (result: Result<(), Error<E>>)
        ensures
            (result, final(self)@) == old(self)@.write_ntc_coefficients(channel, *params),
    {
        let (rref_addr, abc_addr) = match channel {
            Channel::One => (RegAddressP1::Rref1, RegAddressP1::Ntc1A),
            Channel::Two => (RegAddressP1::Rref2, RegAddressP1::Ntc2A),
        };
        let rref = Float24::new(params.r_ref).encode();
        let mut abc: Vec<u8> = Vec::new();
        abc.extend_from_slice(&Float24::new(params.a).encode());
        abc.extend_from_slice(&Float24::new(params.b).encode());
        abc.extend_from_slice(&Float24::new(params.c).encode());
        proof {
            assert(abc@ =~= crate::float24::bytes_of(params.a) + crate::float24::bytes_of(params.b)
                + crate::float24::bytes_of(params.c));
        }
        self.write_two_registers(Page::Page1, rref_addr.addr(), &rref, abc_addr.addr(), abc.as_slice())
    }

    /// Writes the sense-resistor temperature-compensation parameters for one channel.
    ///
    /// `RSnTC` (3 bytes) and `RSnT0` (2 bytes) sit contiguously on page 1 so they are sent
    /// in a single 5-byte burst; `RSnTC2` lives at a distinct address (3 bytes).
    pub fn write_shunt_tc(&mut self, channel: Channel, config: &ShuntTcConfig) -> (result: Result<(), Error<E>>)
        ensures
            (result, final(self)@) == old(self)@.write_shunt_tc(channel, *config),
    {
        let (tc_addr, tc2_addr) = match channel {
            Channel::One => (RegAddressP1::Rs1Tc, RegAddressP1::Rs1Tc2),
            Channel::Two => (RegAddressP1::Rs2Tc, RegAddressP1::Rs2Tc2),
        };
        let mut tc_burst: Vec<u8> = Vec::new();
        tc_burst.extend_from_slice(&Float24::new(config.tc).encode());
        tc_burst.extend_from_slice(&Float24::new(config.t_ref).encode_high());
        let tc2 = Float24::new(config.tc2).encode();
        proof {
            assert(tc_burst@ =~= crate::float24::bytes_of(config.tc) + crate::float24::bytes_of(config.t_ref).take(2));
        }
        self.write_two_registers(Page::Page1, tc_addr.addr(), tc_burst.as_slice(), tc2_addr.addr(), &tc2)
    }

    /// Routes `negative`/`positive` to the SLOT's `MUXN`/`MUXP`.
    ///
    /// MUXN and MUXP are adjacent (0xEB/0xEC for SLOT1, 0xED/0xEE for SLOT2) so a single
    /// 2-byte burst configures both.
    pub fn write_slot_mux(&mut self, slot: Channel, negative: MuxInput, positive: MuxInput) -> (result: Result<
        (),
        Error<E>,
    >)
        ensures
            (result, final(self)@) == old(self)@.write_slot_mux(slot, negative, positive),
    {
        let address = match slot {
            Channel::One => RegAddressP0::Slot1MuxN,
            Channel::Two => RegAddressP0::Slot2MuxN,
        };
        let inputs = crate::bytes::double(negative.code(), positive.code());
        self.write_register(Page::Page0, address.addr(), &inputs)
    }
}

} // verus!
