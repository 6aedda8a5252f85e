//! What the operations of the clients do to the device: what its registers hold afterwards, and
//! what is read from them.
//!
//! The laws speak of a [`Device`] that takes the bytes on the bus apart by itself. Where the bus
//! takes the accesses of an operation, the operation succeeds, and the registers of the device
//! hold what the caller asked for.
use vstd::prelude::*;

use crate::binary::{Binary32, Binary64};
use crate::bus::ActionView;
use crate::config::{Channel, MuxGainSlot, MuxInput, NtcConfig, OverCurrentConfig, ShuntTcConfig};
use crate::device::Device;
use crate::error::Error;
use crate::link::LinkView;
use crate::measurements::{
    AccumulatorsView, BatteryVoltage, CurrentSenseVoltage, DieTemperature, PowerOrVoltage, SlotValue, SupplyVoltage,
};
use crate::registers::Page;
use crate::thresholds::{AccumulatorClock, ChargeAccumulator, EnergyAccumulator, TimeBase};

verus! {

/// Whether `link` talks to `device` over a bus that takes `n` more register accesses.
pub open spec fn is_ready<E>(link: LinkView<E>, device: Device, n: nat) -> bool {
    crate::device::talks_to(link, device) && crate::device::takes(link, n)
}

/// The device after an operation with the outcome `outcome`.
pub open spec fn result_of<T, E>(device: Device, link: LinkView<E>, outcome: (Result<T, Error<E>>, LinkView<E>)) -> Device {
    crate::device::left_by(device, link, outcome.1)
}

/// Whether the last command on the bus of `link` is a write of `data` to the registers from `addr`
/// on.
pub open spec fn ends_with_write<E>(link: LinkView<E>, addr: u8, data: Seq<u8>) -> bool {
    (seq![crate::link::write_action(addr, data)] + link.end).is_suffix_of(link.bus.sent)
}

/// What a single register write does.
proof fn lemma_write<E>(device: Device, link: LinkView<E>, page: Page, addr: u8, data: Seq<u8>)
    requires
        is_ready(link, device, 1),
        data.len() > 0,
        addr + data.len() <= 0xFF,
    ensures
        ({
            let outcome = link.write_register(page, addr, data);
            let after = result_of(device, link, outcome);
            &&& outcome.0 is Ok
            &&& after.page == page
            &&& after.at(page, addr, data.len()) == data
            &&& after.agrees_outside(device, page, addr, data.len())
        }),
{
    crate::device::write_reaches_the_registers(device, link, page, addr, data);
    let after = result_of(device, link, link.write_register(page, addr, data));
    crate::device::held_data_is_at(after, page, addr, data);
}

/// What two register writes do.
proof fn lemma_two_writes<E>(
    device: Device,
    link: LinkView<E>,
    page: Page,
    first_addr: u8,
    first: Seq<u8>,
    second_addr: u8,
    second: Seq<u8>,
)
    requires
        is_ready(link, device, 2),
        first.len() > 0,
        second.len() > 0,
        first_addr + first.len() <= 0xFF,
        second_addr + second.len() <= 0xFF,
        first_addr + first.len() <= second_addr || second_addr + second.len() <= first_addr,
    ensures
        ({
            let outcome = link.write_two_registers(page, first_addr, first, second_addr, second);
            let after = result_of(device, link, outcome);
            &&& outcome.0 is Ok
            &&& after.page == page
            &&& after.at(page, first_addr, first.len()) == first
            &&& after.at(page, second_addr, second.len()) == second
            &&& ends_with_write(outcome.1, second_addr, second)
            &&& after.agrees_outside_both(device, page, first_addr, first.len(), second_addr, second.len())
        }),
{
    crate::device::write_reaches_the_registers(device, link, page, first_addr, first);
    let middle = link.write_register(page, first_addr, first).1;
    crate::laws::accepted_write_goes_out_last(middle, page, second_addr, second);
    crate::device::two_writes_reach_the_registers(device, link, page, first_addr, first, second_addr, second);
    let after = result_of(device, link, link.write_two_registers(page, first_addr, first, second_addr, second));
    crate::device::held_data_is_at(after, page, first_addr, first);
    crate::device::held_data_is_at(after, page, second_addr, second);
}

/// Consecutive registers hold the parts of what they hold together.
proof fn lemma_parts(device: Device, page: Page, addr: u8, first: Seq<u8>, second: Seq<u8>)
    requires
        addr + first.len() + second.len() <= 0x100,
        device.at(page, addr, first.len() + second.len()) == first + second,
        second.len() > 0,
    ensures
        device.at(page, addr, first.len()) == first,
        device.at(page, (addr + first.len()) as u8, second.len()) == second,
{
    let all = first + second;
    assert forall|i: int| 0 <= i < first.len() implies device.at(page, addr, first.len())[i] == first[i] by {
        assert(device.at(page, addr, first.len() + second.len())[i] == all[i]);
    }
    assert forall|i: int| 0 <= i < second.len() implies device.at(
        page,
        (addr + first.len()) as u8,
        second.len(),
    )[i] == second[i] by {
        let j = first.len() + i;
        assert(device.at(page, addr, first.len() + second.len())[j] == all[j]);
    }
    assert(device.at(page, addr, first.len()) =~= first);
    assert(device.at(page, (addr + first.len()) as u8, second.len()) =~= second);
}

/// The address of the high threshold of a time base.
pub open spec fn time_address(time_base: TimeBase) -> u8 {
    match time_base {
        TimeBase::Time1 => 0x0C,
        TimeBase::Time2 => 0x2C,
        TimeBase::Time3 => 0x4C,
        TimeBase::Time4 => 0x6C,
    }
}

/// Whether `number` is the integer nearest to `value` over `lsb`, as far as binary64 can tell:
/// twice the distance is at most one LSB, and one part in 2^52 of the number and two.
pub open spec fn is_nearest(number: int, value: Binary64, lsb: Binary64) -> bool {
    let size = if number < 0 {
        -number
    } else {
        number
    };
    let twice = 2 * (value.units() - number * lsb.units());
    let bound = lsb.units() * (0x10_0000_0000_0000 + size + 2);
    -bound <= twice * 0x10_0000_0000_0000 <= bound
}

/// A time threshold that has a 32-bit code leaves a number in the four registers of the time base
/// that is the nearest to the seconds over the time LSB of the clock.
pub proof fn time_threshold_is_left<E>(
    device: Device,
    link: LinkView<E>,
    time_base: TimeBase,
    seconds: Binary64,
    clock: AccumulatorClock,
)
    requires
        is_ready(link, device, 1),
        crate::thresholds::lsbs_under(clock) is Some,
        crate::thresholds::unsigned_code(
            seconds,
            crate::thresholds::lsbs_under(clock)->0.time,
            u32::MAX as int,
        ) is Some,
    ensures
        ({
            let outcome = link.write_time_threshold(time_base, seconds, clock);
            let after = result_of(device, link, outcome);
            let number = crate::bytes::unsigned(after.at(Page::Page1, time_address(time_base), 4)) as int;
            &&& outcome.0 is Ok
            &&& Some(number) == crate::thresholds::unsigned_code(
                seconds,
                crate::thresholds::lsbs_under(clock)->0.time,
                u32::MAX as int,
            )
            &&& is_nearest(number, seconds, crate::thresholds::lsbs_under(clock)->0.time)
            &&& after.agrees_outside(device, Page::Page1, time_address(time_base), 4)
        }),
{
    let lsb = crate::thresholds::lsbs_under(clock)->0.time;
    let number = crate::thresholds::unsigned_code(seconds, lsb, u32::MAX as int)->0;
    reveal_with_fuel(crate::bytes::span, 5);
    crate::bytes::unsigned_round_trip(number, 4);
    lemma_write(device, link, Page::Page1, time_address(time_base), crate::bytes::encoded(number, 4));
    crate::thresholds::code_is_nearest(seconds, lsb, 0, u32::MAX as int);
}

/// A longer time never leaves a smaller number, under the same clock.
pub proof fn longer_times_leave_larger_numbers<E>(
    device: Device,
    link: LinkView<E>,
    time_base: TimeBase,
    shorter: Binary64,
    longer: Binary64,
    clock: AccumulatorClock,
)
    requires
        is_ready(link, device, 1),
        shorter.units() <= longer.units(),
        link.write_time_threshold(time_base, shorter, clock).0 is Ok,
        link.write_time_threshold(time_base, longer, clock).0 is Ok,
    ensures
        ({
            let first = result_of(device, link, link.write_time_threshold(time_base, shorter, clock));
            let second = result_of(device, link, link.write_time_threshold(time_base, longer, clock));
            crate::bytes::unsigned(first.at(Page::Page1, time_address(time_base), 4)) <= crate::bytes::unsigned(
                second.at(Page::Page1, time_address(time_base), 4),
            )
        }),
{
    time_threshold_is_left(device, link, time_base, shorter, clock);
    time_threshold_is_left(device, link, time_base, longer, clock);
    let lsb = crate::thresholds::lsbs_under(clock)->0.time;
    crate::binary::quotient_is_monotonic(shorter, longer, lsb);
    crate::binary::nearest_is_monotonic(shorter.quotient(lsb), longer.quotient(lsb));
}

/// The addresses of a gain correction of a sense resistor.
pub open spec fn shunt_gain_address(channel: Channel) -> u8 {
    match channel {
        Channel::One => 0xB0,
        Channel::Two => 0xB3,
    }
}

/// A gain factor that is positive and finite is left as Float24 in three registers of PAGE1.
pub proof fn gain_is_left<E>(device: Device, link: LinkView<E>, addr: u8, factor: Binary32)
    requires
        is_ready(link, device, 1),
        factor.is_positive(),
        addr < 0xFC,
    ensures
        ({
            let outcome = link.write_gain(addr, factor);
            let after = result_of(device, link, outcome);
            &&& outcome.0 is Ok
            &&& after.at(Page::Page1, addr, 3) == crate::float24::bytes_of(factor)
            &&& after.agrees_outside(device, Page::Page1, addr, 3)
        }),
{
    crate::float24::three_bytes(factor);
    lemma_write(device, link, Page::Page1, addr, crate::float24::bytes_of(factor));
}

/// A gain factor that is not positive and finite is refused, and nothing goes out.
pub proof fn unsound_gain_is_refused<E>(
    link: LinkView<E>,
    addr: u8,
    slot: MuxGainSlot,
    factor: Binary32,
    negative: MuxInput,
    positive: MuxInput,
)
    requires
        !factor.is_finite() || factor.units() <= 0,
    ensures
        link.write_gain(addr, factor) == (Err::<(), Error<E>>(Error::InvalidGainCorrection), link),
        link.write_mux_gain(slot, factor, negative, positive) == (
            Err::<(), Error<E>>(Error::InvalidGainCorrection),
            link,
        ),
        link.write_ratio(addr, factor, factor) == (Err::<(), Error<E>>(Error::InvalidGainCorrection), link),
{
}

/// The gain correction of each sense resistor has its own registers.
pub proof fn shunt_gain_is_left<E>(device: Device, link: LinkView<E>, channel: Channel, factor: Binary32)
    requires
        is_ready(link, device, 1),
        factor.is_positive(),
    ensures
        ({
            let outcome = link.write_gain(crate::client::shunt_gain_register(channel).addr(), factor);
            let after = result_of(device, link, outcome);
            &&& outcome.0 is Ok
            &&& after.at(Page::Page1, shunt_gain_address(channel), 3) == crate::float24::bytes_of(factor)
            &&& after.agrees_outside(device, Page::Page1, shunt_gain_address(channel), 3)
        }),
{
    gain_is_left(device, link, shunt_gain_address(channel), factor);
}

/// The ratio of two positive numbers is left as Float24, and is their quotient but for one part
/// in 2^24 of it and half of the smallest positive number.
pub proof fn ratio_is_left<E>(device: Device, link: LinkView<E>, addr: u8, numerator: Binary32, denominator: Binary32)
    requires
        is_ready(link, device, 1),
        numerator.is_positive(),
        denominator.is_positive(),
        numerator.quotient(denominator).is_positive(),
        addr < 0xFC,
    ensures
        ({
            let outcome = link.write_ratio(addr, numerator, denominator);
            let after = result_of(device, link, outcome);
            let ratio = numerator.quotient(denominator);
            let gap = numerator.units() * crate::rounding::power(149) - ratio.units() * denominator.units();
            let bound = ratio.units() * denominator.units() + crate::rounding::power(23) * denominator.units();
            &&& outcome.0 is Ok
            &&& after.at(Page::Page1, addr, 3) == crate::float24::bytes_of(ratio)
            &&& -bound <= 2 * crate::rounding::power(23) * gap <= bound
            &&& after.agrees_outside(device, Page::Page1, addr, 3)
        }),
{
    gain_is_left(device, link, addr, numerator.quotient(denominator));
    crate::binary::quotient_is_close_32(numerator, denominator);
}

/// The address of a multiplexer gain correction.
pub open spec fn mux_gain_address(slot: MuxGainSlot) -> u8 {
    match slot {
        MuxGainSlot::One => 0xC0,
        MuxGainSlot::Two => 0xC3,
        MuxGainSlot::Three => 0xC6,
        MuxGainSlot::Four => 0xC9,
    }
}

/// The address of the negative input that a multiplexer gain correction applies to; the positive
/// one follows it.
pub open spec fn mux_set_address(slot: MuxGainSlot) -> u8 {
    match slot {
        MuxGainSlot::One => 0xBC,
        MuxGainSlot::Two => 0xBE,
        MuxGainSlot::Three => 0xCC,
        MuxGainSlot::Four => 0xCE,
    }
}

/// A multiplexer gain correction leaves its factor as Float24, and the codes of the negative and
/// of the positive input that it applies to, in the last write, each in its own register.
#[verifier::rlimit(40)]
pub proof fn mux_gain_is_left<E>(
    device: Device,
    link: LinkView<E>,
    slot: MuxGainSlot,
    factor: Binary32,
    negative: MuxInput,
    positive: MuxInput,
)
    requires
        is_ready(link, device, 2),
        factor.is_positive(),
    ensures
        ({
            let outcome = link.write_mux_gain(slot, factor, negative, positive);
            let after = result_of(device, link, outcome);
            &&& outcome.0 is Ok
            &&& after.at(Page::Page1, mux_gain_address(slot), 3) == crate::float24::bytes_of(factor)
            &&& (after.held)(Page::Page1, mux_set_address(slot)) == negative.code()
            &&& (after.held)(Page::Page1, (mux_set_address(slot) + 1) as u8) == positive.code()
            &&& ends_with_write(outcome.1, mux_set_address(slot), seq![negative.code(), positive.code()])
            &&& after.agrees_outside_both(device, Page::Page1, mux_gain_address(slot), 3, mux_set_address(slot), 2)
        }),
{
    let inputs = seq![negative.code(), positive.code()];
    crate::float24::three_bytes(factor);
    lemma_two_writes(
        device,
        link,
        Page::Page1,
        mux_gain_address(slot),
        crate::float24::bytes_of(factor),
        mux_set_address(slot),
        inputs,
    );
    let after = result_of(device, link, link.write_mux_gain(slot, factor, negative, positive));
    assert(after.at(Page::Page1, mux_set_address(slot), 2)[0] == inputs[0]);
    assert(after.at(Page::Page1, mux_set_address(slot), 2)[1] == inputs[1]);
}

/// Two multiplexer gain corrections leave the same inputs only if they apply to the same ones.
pub proof fn mux_inputs_are_told_apart<E>(
    device: Device,
    link: LinkView<E>,
    slot: MuxGainSlot,
    factor: Binary32,
    first: (MuxInput, MuxInput),
    second: (MuxInput, MuxInput),
)
    requires
        is_ready(link, device, 2),
        factor.is_positive(),
        first != second,
    ensures
        ({
            let one = result_of(device, link, link.write_mux_gain(slot, factor, first.0, first.1));
            let other = result_of(device, link, link.write_mux_gain(slot, factor, second.0, second.1));
            one.at(Page::Page1, mux_set_address(slot), 2) != other.at(Page::Page1, mux_set_address(slot), 2)
        }),
{
    mux_gain_is_left(device, link, slot, factor, first.0, first.1);
    mux_gain_is_left(device, link, slot, factor, second.0, second.1);
    crate::config::mux_codes_are_distinct(first.0, second.0);
    crate::config::mux_codes_are_distinct(first.1, second.1);
    let one = result_of(device, link, link.write_mux_gain(slot, factor, first.0, first.1));
    let other = result_of(device, link, link.write_mux_gain(slot, factor, second.0, second.1));
    let a = one.at(Page::Page1, mux_set_address(slot), 2);
    let b = other.at(Page::Page1, mux_set_address(slot), 2);
    assert(a[0] != b[0] || a[1] != b[1]);
}

/// The addresses of the first-order and of the second-order coefficient of a sense resistor. The
/// reference temperature follows the first-order coefficient.
pub open spec fn shunt_tc_addresses(channel: Channel) -> (u8, u8) {
    match channel {
        Channel::One => (0xD9, 0x5C),
        Channel::Two => (0xE9, 0x7C),
    }
}

/// The temperature compensation of a sense resistor leaves the first-order coefficient as
/// Float24, behind it the two top bytes of the Float24 reference temperature, and, in the last
/// write, the second-order coefficient as Float24.
#[verifier::rlimit(40)]
pub proof fn shunt_tc_is_left<E>(device: Device, link: LinkView<E>, channel: Channel, config: ShuntTcConfig)
    requires
        is_ready(link, device, 2),
    ensures
        ({
            let outcome = link.write_shunt_tc(channel, config);
            let after = result_of(device, link, outcome);
            let (first, second) = shunt_tc_addresses(channel);
            &&& outcome.0 is Ok
            &&& after.at(Page::Page1, first, 3) == crate::float24::bytes_of(config.tc)
            &&& (after.held)(Page::Page1, (first + 3) as u8) == crate::float24::bytes_of(config.t_ref)[0]
            &&& (after.held)(Page::Page1, (first + 4) as u8) == crate::float24::bytes_of(config.t_ref)[1]
            &&& after.at(Page::Page1, second, 3) == crate::float24::bytes_of(config.tc2)
            &&& ends_with_write(outcome.1, second, crate::float24::bytes_of(config.tc2))
            &&& after.agrees_outside_both(device, Page::Page1, first, 5, second, 3)
        }),
{
    let (first, second) = shunt_tc_addresses(channel);
    let tc = crate::float24::bytes_of(config.tc);
    let t0 = crate::float24::bytes_of(config.t_ref).take(2);
    crate::float24::three_bytes(config.tc);
    crate::float24::three_bytes(config.t_ref);
    crate::float24::three_bytes(config.tc2);
    lemma_two_writes(device, link, Page::Page1, first, tc + t0, second, crate::float24::bytes_of(config.tc2));
    let after = result_of(device, link, link.write_shunt_tc(channel, config));
    lemma_parts(after, Page::Page1, first, tc, t0);
    assert(after.at(Page::Page1, (first + 3) as u8, 2)[0] == t0[0]);
    assert(after.at(Page::Page1, (first + 3) as u8, 2)[1] == t0[1]);
}

/// Two compensations whose second-order coefficients have different Float24 codes leave different
/// bytes.
pub proof fn second_order_terms_are_told_apart<E>(
    device: Device,
    link: LinkView<E>,
    channel: Channel,
    first: ShuntTcConfig,
    second: ShuntTcConfig,
)
    requires
        is_ready(link, device, 2),
        crate::float24::code(first.tc2) != crate::float24::code(second.tc2),
    ensures
        ({
            let one = result_of(device, link, link.write_shunt_tc(channel, first));
            let other = result_of(device, link, link.write_shunt_tc(channel, second));
            one.at(Page::Page1, shunt_tc_addresses(channel).1, 3) != other.at(
                Page::Page1,
                shunt_tc_addresses(channel).1,
                3,
            )
        }),
{
    shunt_tc_is_left(device, link, channel, first);
    shunt_tc_is_left(device, link, channel, second);
    crate::float24::three_bytes(first.tc2);
    crate::float24::three_bytes(second.tc2);
}

/// The addresses of the reference resistor and of the first coefficient of an NTC.
pub open spec fn ntc_addresses(channel: Channel) -> (u8, u8) {
    match channel {
        Channel::One => (0xAA, 0xD0),
        Channel::Two => (0xAD, 0xE0),
    }
}

/// The parameters of an NTC leave its reference resistor and its three coefficients as Float24,
/// the coefficients one behind the other.
#[verifier::rlimit(40)]
pub proof fn ntc_coefficients_are_left<E>(device: Device, link: LinkView<E>, channel: Channel, params: NtcConfig)
    requires
        is_ready(link, device, 2),
    ensures
        ({
            let outcome = link.write_ntc_coefficients(channel, params);
            let after = result_of(device, link, outcome);
            let (r_ref, first) = ntc_addresses(channel);
            &&& outcome.0 is Ok
            &&& after.at(Page::Page1, r_ref, 3) == crate::float24::bytes_of(params.r_ref)
            &&& after.at(Page::Page1, first, 3) == crate::float24::bytes_of(params.a)
            &&& after.at(Page::Page1, (first + 3) as u8, 3) == crate::float24::bytes_of(params.b)
            &&& after.at(Page::Page1, (first + 6) as u8, 3) == crate::float24::bytes_of(params.c)
            &&& ends_with_write(
                outcome.1,
                first,
                crate::float24::bytes_of(params.a) + crate::float24::bytes_of(params.b) + crate::float24::bytes_of(params.c),
            )
            &&& after.agrees_outside_both(device, Page::Page1, r_ref, 3, first, 9)
        }),
{
    let (r_ref, first) = ntc_addresses(channel);
    let a = crate::float24::bytes_of(params.a);
    let b = crate::float24::bytes_of(params.b);
    let c = crate::float24::bytes_of(params.c);
    crate::float24::three_bytes(params.r_ref);
    crate::float24::three_bytes(params.a);
    crate::float24::three_bytes(params.b);
    crate::float24::three_bytes(params.c);
    lemma_two_writes(device, link, Page::Page1, r_ref, crate::float24::bytes_of(params.r_ref), first, a + b + c);
    let after = result_of(device, link, link.write_ntc_coefficients(channel, params));
    lemma_parts(after, Page::Page1, first, a + b, c);
    lemma_parts(after, Page::Page1, first, a, b);
}

/// The address of the negative input of a SLOT; the positive one follows it.
pub open spec fn slot_mux_address(slot: Channel) -> u8 {
    match slot {
        Channel::One => 0xEB,
        Channel::Two => 0xED,
    }
}

/// The multiplexer of a SLOT is left with the codes of its negative and its positive input.
pub proof fn slot_mux_is_left<E>(
    device: Device,
    link: LinkView<E>,
    slot: Channel,
    negative: MuxInput,
    positive: MuxInput,
)
    requires
        is_ready(link, device, 1),
    ensures
        ({
            let outcome = link.write_slot_mux(slot, negative, positive);
            let after = result_of(device, link, outcome);
            &&& outcome.0 is Ok
            &&& (after.held)(Page::Page0, slot_mux_address(slot)) == negative.code()
            &&& (after.held)(Page::Page0, (slot_mux_address(slot) + 1) as u8) == positive.code()
            &&& after.agrees_outside(device, Page::Page0, slot_mux_address(slot), 2)
        }),
{
    let inputs = seq![negative.code(), positive.code()];
    lemma_write(device, link, Page::Page0, slot_mux_address(slot), inputs);
    let after = result_of(device, link, link.write_slot_mux(slot, negative, positive));
    assert(after.at(Page::Page0, slot_mux_address(slot), 2)[0] == inputs[0]);
    assert(after.at(Page::Page0, slot_mux_address(slot), 2)[1] == inputs[1]);
}

/// Whether the registers of PAGE1 hold a pair of thresholds over `lsb`, each in `n` bytes: a high
/// one from `high_addr` on, which is nearest to `high`, and a low one from `low_addr` on, which is
/// nearest to `low`.
pub open spec fn holds_pair(
    device: Device,
    high_addr: u8,
    low_addr: u8,
    n: nat,
    low: Binary64,
    high: Binary64,
    lsb: Binary64,
) -> bool {
    let high_number = crate::bytes::signed(device.at(Page::Page1, high_addr, n));
    let low_number = crate::bytes::signed(device.at(Page::Page1, low_addr, n));
    &&& is_nearest(high_number, high, lsb)
    &&& is_nearest(low_number, low, lsb)
    &&& low_number <= high_number
}

/// The bytes of a pair hold its numbers.
proof fn lemma_holds_pair(
    device: Device,
    high_addr: u8,
    low_addr: u8,
    n: nat,
    low: Binary64,
    high: Binary64,
    lsb: Binary64,
    min: int,
    max: int,
)
    requires
        n > 0,
        crate::bytes::fits_signed(min, n),
        crate::bytes::fits_signed(max, n),
        crate::thresholds::codes(low, high, lsb, min, max) is Some,
        ({
            let (first, second) = crate::thresholds::pair_bytes(low, high, lsb, n, min, max)->0;
            &&& device.at(Page::Page1, high_addr, n) == first
            &&& device.at(Page::Page1, low_addr, n) == second
        }),
    ensures
        holds_pair(device, high_addr, low_addr, n, low, high, lsb),
{
    let (low_code, high_code) = crate::thresholds::codes(low, high, lsb, min, max)->0;
    crate::thresholds::codes_are_ordered(low, high, lsb, min, max);
    crate::thresholds::code_is_nearest(low, lsb, min, max);
    crate::thresholds::code_is_nearest(high, lsb, min, max);
    crate::bytes::signed_round_trip(low_code, n);
    crate::bytes::signed_round_trip(high_code, n);
}

/// A pair of thresholds whose values have 16-bit codes is left in four registers, the high one
/// first.
pub proof fn pair_16_is_left<E>(device: Device, link: LinkView<E>, addr: u8, low: Binary64, high: Binary64, lsb: Binary64)
    requires
        is_ready(link, device, 1),
        addr < 0xFB,
        low.units() <= high.units(),
        crate::thresholds::code(low, lsb, -0x8000, 0x7FFF) is Some,
        crate::thresholds::code(high, lsb, -0x8000, 0x7FFF) is Some,
    ensures
        ({
            let outcome = link.write_pair_16(addr, low, high, Some(lsb));
            let after = result_of(device, link, outcome);
            &&& outcome.0 is Ok
            &&& holds_pair(after, addr, (addr + 2) as u8, 2, low, high, lsb)
            &&& after.agrees_outside(device, Page::Page1, addr, 4)
        }),
{
    let (first, second) = crate::thresholds::pair_bytes(low, high, lsb, 2, i16::MIN as int, i16::MAX as int)->0;
    crate::thresholds::thresholds_read_back(low, high, lsb);
    lemma_write(device, link, Page::Page1, addr, first + second);
    let after = result_of(device, link, link.write_pair_16(addr, low, high, Some(lsb)));
    lemma_parts(after, Page::Page1, addr, first, second);
    reveal_with_fuel(crate::bytes::span, 3);
    lemma_holds_pair(after, addr, (addr + 2) as u8, 2, low, high, lsb, i16::MIN as int, i16::MAX as int);
}

/// A pair of thresholds whose values have 48-bit codes is left in twelve registers, the high one
/// first.
pub proof fn pair_48_is_left<E>(device: Device, link: LinkView<E>, addr: u8, low: Binary64, high: Binary64, lsb: Binary64)
    requires
        is_ready(link, device, 1),
        addr < 0xF3,
        low.units() <= high.units(),
        crate::thresholds::code(low, lsb, -0x8000_0000_0000, 0x7FFF_FFFF_FFFF) is Some,
        crate::thresholds::code(high, lsb, -0x8000_0000_0000, 0x7FFF_FFFF_FFFF) is Some,
    ensures
        ({
            let outcome = link.write_pair_48(addr, low, high, lsb);
            let after = result_of(device, link, outcome);
            &&& outcome.0 is Ok
            &&& holds_pair(after, addr, (addr + 6) as u8, 6, low, high, lsb)
            &&& after.agrees_outside(device, Page::Page1, addr, 12)
        }),
{
    let min = crate::thresholds::MIN_48 as int;
    let max = crate::thresholds::MAX_48 as int;
    let (first, second) = crate::thresholds::pair_bytes(low, high, lsb, 6, min, max)->0;
    crate::thresholds::thresholds_read_back(low, high, lsb);
    lemma_write(device, link, Page::Page1, addr, first + second);
    let after = result_of(device, link, link.write_pair_48(addr, low, high, lsb));
    lemma_parts(after, Page::Page1, addr, first, second);
    reveal_with_fuel(crate::bytes::span, 7);
    lemma_holds_pair(after, addr, (addr + 6) as u8, 6, low, high, lsb, min, max);
}

/// A pair of thresholds whose values have 64-bit codes is left in eight registers for the high
/// one and eight for the low one.
pub proof fn pair_64_is_left<E>(
    device: Device,
    link: LinkView<E>,
    high_addr: u8,
    low_addr: u8,
    low: Binary64,
    high: Binary64,
    lsb: Binary64,
)
    requires
        is_ready(link, device, 2),
        high_addr + 8 <= low_addr < 0xF7,
        low.units() <= high.units(),
        crate::thresholds::code(low, lsb, -0x8000_0000_0000_0000, 0x7FFF_FFFF_FFFF_FFFF) is Some,
        crate::thresholds::code(high, lsb, -0x8000_0000_0000_0000, 0x7FFF_FFFF_FFFF_FFFF) is Some,
    ensures
        ({
            let outcome = link.write_pair_64(high_addr, low_addr, low, high, lsb);
            let after = result_of(device, link, outcome);
            &&& outcome.0 is Ok
            &&& holds_pair(after, high_addr, low_addr, 8, low, high, lsb)
            &&& after.agrees_outside_both(device, Page::Page1, high_addr, 8, low_addr, 8)
        }),
{
    let min = i64::MIN as int;
    let max = i64::MAX as int;
    let (first, second) = crate::thresholds::pair_bytes(low, high, lsb, 8, min, max)->0;
    crate::thresholds::thresholds_read_back(low, high, lsb);
    lemma_two_writes(device, link, Page::Page1, high_addr, first, low_addr, second);
    let after = result_of(device, link, link.write_pair_64(high_addr, low_addr, low, high, lsb));
    reveal_with_fuel(crate::bytes::span, 9);
    lemma_holds_pair(after, high_addr, low_addr, 8, low, high, lsb, min, max);
}

/// Thresholds in the wrong order, and thresholds one of which has no code, are refused, and nothing
/// goes out.
pub proof fn unsound_pairs_are_refused<E>(
    link: LinkView<E>,
    addr: u8,
    other_addr: u8,
    low: Binary64,
    high: Binary64,
    lsb: Binary64,
)
    ensures
        ({
            let refused = (Err::<(), Error<E>>(Error::InvalidThreshold), link);
            &&& link.write_pair_16(addr, low, high, None) == refused
            &&& low.units() > high.units() ==> {
                &&& link.write_pair_16(addr, low, high, Some(lsb)) == refused
                &&& link.write_pair_48(addr, low, high, lsb) == refused
                &&& link.write_pair_64(addr, other_addr, low, high, lsb) == refused
            }
            &&& !low.is_finite() || !high.is_finite() || !lsb.is_positive() ==> {
                &&& link.write_pair_16(addr, low, high, Some(lsb)) == refused
                &&& link.write_pair_48(addr, low, high, lsb) == refused
                &&& link.write_pair_64(addr, other_addr, low, high, lsb) == refused
            }
            &&& low.units() <= -(0x8001 * lsb.units()) || high.units() >= 0x8000 * lsb.units() ==> link.write_pair_16(
                addr,
                low,
                high,
                Some(lsb),
            ) == refused
            &&& low.units() <= -(0x8000_0000_0001 * lsb.units()) || high.units() >= 0x8000_0000_0000 * lsb.units()
                ==> link.write_pair_48(addr, low, high, lsb) == refused
        }),
{
    vstd::arithmetic::power2::lemma2_to64();
    crate::thresholds::values_out_of_range_have_no_codes(low, lsb, i16::MIN as int, i16::MAX as int, 0x8001, 0);
    crate::thresholds::values_out_of_range_have_no_codes(high, lsb, i16::MIN as int, i16::MAX as int, 0x8000, 0);
    let min = crate::thresholds::MIN_48 as int;
    let max = crate::thresholds::MAX_48 as int;
    crate::thresholds::values_out_of_range_have_no_codes(low, lsb, min, max, 0x8000_0000_0001, 0);
    crate::thresholds::values_out_of_range_have_no_codes(high, lsb, min, max, 0x8000_0000_0000, 0);
}

/// The address of the high threshold of a current.
pub open spec fn current_address(channel: Channel) -> u8 {
    match channel {
        Channel::One => 0x80,
        Channel::Two => 0x88,
    }
}

/// The address of the high threshold of a power.
pub open spec fn power_address(channel: Channel) -> u8 {
    match channel {
        Channel::One => 0x84,
        Channel::Two => 0x8C,
    }
}

/// The address of the high threshold of a SLOT.
pub open spec fn slot_address(slot: Channel) -> u8 {
    match slot {
        Channel::One => 0xA0,
        Channel::Two => 0xA4,
    }
}

/// The addresses of the high and of the low threshold of a charge, and the bytes of each.
pub open spec fn charge_addresses(accumulator: ChargeAccumulator) -> (u8, u8, nat) {
    match accumulator {
        ChargeAccumulator::Charge1 => (0x00, 0x06, 6),
        ChargeAccumulator::Charge2 => (0x20, 0x26, 6),
        ChargeAccumulator::Charge3 => (0x44, 0x54, 8),
    }
}

/// The addresses of the high and of the low threshold of an energy, and the bytes of each.
pub open spec fn energy_addresses(accumulator: EnergyAccumulator) -> (u8, u8, nat) {
    match accumulator {
        EnergyAccumulator::Energy1 => (0x10, 0x16, 6),
        EnergyAccumulator::Energy2 => (0x30, 0x36, 6),
        EnergyAccumulator::Energy4 => (0x64, 0x74, 8),
    }
}

/// Half of the numbers that `n` bytes hold, for the six and the eight bytes of an accumulator.
pub open spec fn half_range(n: nat) -> int {
    if n == 6 {
        0x8000_0000_0000
    } else {
        0x8000_0000_0000_0000
    }
}

/// The thresholds of a charge are left in the registers of its accumulator, over the LSB of the
/// clock divided by the shunt.
#[verifier::rlimit(40)]
pub proof fn charge_thresholds_are_left<E>(
    device: Device,
    link: LinkView<E>,
    accumulator: ChargeAccumulator,
    low: Binary64,
    high: Binary64,
    shunt_ohms: Binary64,
    clock: AccumulatorClock,
)
    requires
        is_ready(link, device, 2),
        low.units() <= high.units(),
        crate::thresholds::lsbs_under(clock) is Some,
        shunt_ohms.is_positive(),
        ({
            let lsb = crate::thresholds::lsbs_under(clock)->0.charge.quotient(shunt_ohms);
            let half = half_range(charge_addresses(accumulator).2);
            &&& crate::thresholds::code(low, lsb, -half, half - 1) is Some
            &&& crate::thresholds::code(high, lsb, -half, half - 1) is Some
        }),
    ensures
        ({
            let outcome = link.write_charge_thresholds(accumulator, low, high, shunt_ohms, clock);
            let after = result_of(device, link, outcome);
            let (high_addr, low_addr, n) = charge_addresses(accumulator);
            let lsb = crate::thresholds::lsbs_under(clock)->0.charge.quotient(shunt_ohms);
            &&& outcome.0 is Ok
            &&& holds_pair(after, high_addr, low_addr, n, low, high, lsb)
            &&& after.agrees_outside_both(device, Page::Page1, high_addr, n, low_addr, n)
        }),
{
    let (high_addr, low_addr, n) = charge_addresses(accumulator);
    let lsb = crate::thresholds::lsbs_under(clock)->0.charge.quotient(shunt_ohms);
    if n == 6 {
        pair_48_is_left(device, link, high_addr, low, high, lsb);
    } else {
        pair_64_is_left(device, link, high_addr, low_addr, low, high, lsb);
    }
}

/// The thresholds of an energy are left in the registers of its accumulator, over the LSB of the
/// clock divided by the shunt.
#[verifier::rlimit(40)]
pub proof fn energy_thresholds_are_left<E>(
    device: Device,
    link: LinkView<E>,
    accumulator: EnergyAccumulator,
    low: Binary64,
    high: Binary64,
    shunt_ohms: Binary64,
    clock: AccumulatorClock,
)
    requires
        is_ready(link, device, 2),
        low.units() <= high.units(),
        crate::thresholds::lsbs_under(clock) is Some,
        shunt_ohms.is_positive(),
        ({
            let lsb = crate::thresholds::lsbs_under(clock)->0.energy.quotient(shunt_ohms);
            let half = half_range(energy_addresses(accumulator).2);
            &&& crate::thresholds::code(low, lsb, -half, half - 1) is Some
            &&& crate::thresholds::code(high, lsb, -half, half - 1) is Some
        }),
    ensures
        ({
            let outcome = link.write_energy_thresholds(accumulator, low, high, shunt_ohms, clock);
            let after = result_of(device, link, outcome);
            let (high_addr, low_addr, n) = energy_addresses(accumulator);
            let lsb = crate::thresholds::lsbs_under(clock)->0.energy.quotient(shunt_ohms);
            &&& outcome.0 is Ok
            &&& holds_pair(after, high_addr, low_addr, n, low, high, lsb)
            &&& after.agrees_outside_both(device, Page::Page1, high_addr, n, low_addr, n)
        }),
{
    let (high_addr, low_addr, n) = energy_addresses(accumulator);
    let lsb = crate::thresholds::lsbs_under(clock)->0.energy.quotient(shunt_ohms);
    if n == 6 {
        pair_48_is_left(device, link, high_addr, low, high, lsb);
    } else {
        pair_64_is_left(device, link, high_addr, low_addr, low, high, lsb);
    }
}

/// Accumulator thresholds under a clock that cannot be configured are refused, and so are those of
/// a charge or an energy with a shunt that is not positive and finite, and a time below zero.
pub proof fn unsound_accumulator_thresholds_are_refused<E>(
    link: LinkView<E>,
    charge: ChargeAccumulator,
    energy: EnergyAccumulator,
    time_base: TimeBase,
    low: Binary64,
    high: Binary64,
    shunt_ohms: Binary64,
    clock: AccumulatorClock,
)
    ensures
        ({
            let refused = (Err::<(), Error<E>>(Error::InvalidThreshold), link);
            &&& !clock.is_valid() || !shunt_ohms.is_positive() ==> {
                &&& link.write_charge_thresholds(charge, low, high, shunt_ohms, clock) == refused
                &&& link.write_energy_thresholds(energy, low, high, shunt_ohms, clock) == refused
            }
            &&& !clock.is_valid() || low.units() < 0 || !low.is_finite() ==> link.write_time_threshold(time_base, low, clock)
                == refused
            &&& low.units() > high.units() ==> {
                &&& link.write_charge_thresholds(charge, low, high, shunt_ohms, clock) == refused
                &&& link.write_energy_thresholds(energy, low, high, shunt_ohms, clock) == refused
            }
        }),
{
}

/// Reading a byte gives what its register of PAGE0 holds.
pub proof fn byte_is_read<E>(device: Device, link: LinkView<E>, addr: u8)
    requires
        is_ready(link, device, 1),
        addr < 0xFF,
        crate::device::is_answered_by(device, link, link.read_byte(addr).1),
    ensures
        link.read_byte(addr).0 == Ok::<u8, Error<E>>((device.held)(Page::Page0, addr)),
{
    crate::device::read_gives_the_registers(device, link, Page::Page0, addr, 1);
    let data = link.read_register(Page::Page0, addr, 1).0->Ok_0;
    assert(data[0] == (device.held)(Page::Page0, (addr + 0) as u8));
}

/// What a read of `n` bytes gives is what the registers hold.
proof fn lemma_read<E>(device: Device, link: LinkView<E>, addr: u8, n: nat)
    requires
        is_ready(link, device, 1),
        n > 0,
        addr + n <= 0xFF,
        crate::device::is_answered_by(device, link, link.read_register(Page::Page0, addr, n).1),
    ensures
        link.read_register(Page::Page0, addr, n).0 == Ok::<Seq<u8>, Error<E>>(device.at(Page::Page0, addr, n)),
{
    crate::device::read_gives_the_registers(device, link, Page::Page0, addr, n);
    let data = link.read_register(Page::Page0, addr, n).0->Ok_0;
    crate::device::held_data_is_at(device, Page::Page0, addr, data);
}

/// Reading a two's-complement number gives the number that the registers of PAGE0 hold, whichever
/// it is.
pub proof fn signed_number_is_read<E>(device: Device, link: LinkView<E>, addr: u8, n: nat, value: int)
    requires
        is_ready(link, device, 1),
        n > 0,
        addr + n <= 0xFF,
        crate::bytes::fits_signed(value, n),
        device.at(Page::Page0, addr, n) == crate::bytes::encoded(value, n),
        crate::device::is_answered_by(device, link, link.read_signed(addr, n).1),
    ensures
        link.read_signed(addr, n).0 == Ok::<int, Error<E>>(value),
{
    lemma_read(device, link, addr, n);
    crate::bytes::signed_round_trip(value, n);
}

/// Reading an unsigned number gives the number that the registers of PAGE0 hold, whichever it is.
pub proof fn unsigned_number_is_read<E>(device: Device, link: LinkView<E>, addr: u8, n: nat, value: int)
    requires
        is_ready(link, device, 1),
        n > 0,
        addr + n <= 0xFF,
        0 <= value < crate::bytes::span(n),
        device.at(Page::Page0, addr, n) == crate::bytes::encoded(value, n),
        crate::device::is_answered_by(device, link, link.read_unsigned(addr, n).1),
    ensures
        link.read_unsigned(addr, n).0 == Ok::<int, Error<E>>(value),
{
    lemma_read(device, link, addr, n);
    crate::bytes::unsigned_round_trip(value, n);
}

/// A snapshot of an accumulator row holds exactly the charge, the energy and the time that the
/// registers hold: six bytes, six bytes and four bytes, whatever the numbers are.
pub proof fn snapshot_holds_the_accumulators<E>(
    device: Device,
    link: LinkView<E>,
    addr: u8,
    charge: int,
    energy: int,
    time: int,
)
    requires
        is_ready(link, device, 1),
        addr <= 0xEF,
        -0x8000_0000_0000 <= charge < 0x8000_0000_0000,
        -0x8000_0000_0000 <= energy < 0x8000_0000_0000,
        0 <= time < 0x1_0000_0000,
        device.at(Page::Page0, addr, 6) == crate::bytes::encoded(charge, 6),
        device.at(Page::Page0, (addr + 6) as u8, 6) == crate::bytes::encoded(energy, 6),
        device.at(Page::Page0, (addr + 12) as u8, 4) == crate::bytes::encoded(time, 4),
        crate::device::is_answered_by(device, link, link.read_accumulators(addr).1),
    ensures
        link.read_accumulators(addr).0 == Ok::<AccumulatorsView, Error<E>>(AccumulatorsView { charge, energy, time }),
{
    lemma_read(device, link, addr, 16);
    let row = device.at(Page::Page0, addr, 16);
    assert(row.subrange(0, 6) =~= device.at(Page::Page0, addr, 6));
    assert(row.subrange(6, 12) =~= device.at(Page::Page0, (addr + 6) as u8, 6));
    assert(row.subrange(12, 16) =~= device.at(Page::Page0, (addr + 12) as u8, 4));
    reveal_with_fuel(crate::bytes::span, 7);
    crate::bytes::signed_round_trip(charge, 6);
    crate::bytes::signed_round_trip(energy, 6);
    crate::bytes::unsigned_round_trip(time, 4);
}

/// A snapshot of an accumulator row is what three separate reads of the same registers give.
pub proof fn snapshot_is_three_reads<E>(
    device: Device,
    link: LinkView<E>,
    charge_link: LinkView<E>,
    energy_link: LinkView<E>,
    time_link: LinkView<E>,
    addr: u8,
)
    requires
        addr <= 0xEF,
        is_ready(link, device, 1),
        is_ready(charge_link, device, 1),
        is_ready(energy_link, device, 1),
        is_ready(time_link, device, 1),
        crate::device::is_answered_by(device, link, link.read_accumulators(addr).1),
        crate::device::is_answered_by(device, charge_link, charge_link.read_signed(addr, 6).1),
        crate::device::is_answered_by(device, energy_link, energy_link.read_signed((addr + 6) as u8, 6).1),
        crate::device::is_answered_by(device, time_link, time_link.read_unsigned((addr + 12) as u8, 4).1),
    ensures
        link.read_accumulators(addr).0 matches Ok(snapshot) && charge_link.read_signed(addr, 6).0 == Ok::<int, Error<E>>(
            snapshot.charge,
        ) && energy_link.read_signed((addr + 6) as u8, 6).0 == Ok::<int, Error<E>>(snapshot.energy)
            && time_link.read_unsigned((addr + 12) as u8, 4).0 == Ok::<int, Error<E>>(snapshot.time),
{
    lemma_read(device, link, addr, 16);
    lemma_read(device, charge_link, addr, 6);
    lemma_read(device, energy_link, (addr + 6) as u8, 6);
    lemma_read(device, time_link, (addr + 12) as u8, 4);
    let row = device.at(Page::Page0, addr, 16);
    assert(row.subrange(0, 6) =~= device.at(Page::Page0, addr, 6));
    assert(row.subrange(6, 12) =~= device.at(Page::Page0, (addr + 6) as u8, 6));
    assert(row.subrange(12, 16) =~= device.at(Page::Page0, (addr + 12) as u8, 4));
}

/// Whether an operation leaves `byte` in one register of `page` and changes no other register but
/// the register control register.
pub open spec fn leaves_byte<E>(
    device: Device,
    link: LinkView<E>,
    outcome: (Result<(), Error<E>>, LinkView<E>),
    page: Page,
    addr: u8,
    byte: u8,
) -> bool {
    let after = result_of(device, link, outcome);
    &&& outcome.0 is Ok
    &&& (after.held)(page, addr) == byte
    &&& after.agrees_outside(device, page, addr, 1)
}

/// A write of one byte leaves it.
proof fn lemma_byte<E>(device: Device, link: LinkView<E>, page: Page, addr: u8, byte: u8)
    requires
        is_ready(link, device, 1),
        addr < 0xFF,
    ensures
        leaves_byte(device, link, link.write_register(page, addr, seq![byte]), page, addr, byte),
{
    lemma_write(device, link, page, addr, seq![byte]);
    let after = result_of(device, link, link.write_register(page, addr, seq![byte]));
    assert(after.at(page, addr, 1)[0] == byte);
}

/// Each control register is left with exactly the byte that is written to it: WKUPACK with zero,
/// OPCTRL, FACTRL and ADCCONF with that of their register type, and the GPIO registers with that of
/// the caller.
pub proof fn control_bytes_are_left<E>(device: Device, link: LinkView<E>, byte: u8, hb: bool)
    requires
        is_ready(link, device, 1),
    ensures
        leaves_byte(device, link, link.confirm_wake_up(), Page::Page0, 0x70, 0x00),
        leaves_byte(device, link, link.write_opctrl(byte), Page::Page0, 0xF0, byte),
        leaves_byte(device, link, link.write_factrl(byte), Page::Page0, 0xF5, byte),
        leaves_byte(device, link, link.write_adcconf(byte), Page::Page1, 0xDF, byte),
        leaves_byte(device, link, link.write_gpio_ctrl(byte), Page::Page0, 0xF2, byte),
        leaves_byte(device, link, link.write_gpio5_config(byte), Page::Page0, 0xF1, byte),
        hb ==> leaves_byte(device, link, link.write_gpio4_hb(hb), Page::Page0, 0xF1, 0x01),
        !hb ==> leaves_byte(device, link, link.write_gpio4_hb(hb), Page::Page0, 0xF1, 0x00),
{
    lemma_byte(device, link, Page::Page0, 0x70, 0x00);
    lemma_byte(device, link, Page::Page0, 0xF0, byte);
    lemma_byte(device, link, Page::Page0, 0xF5, byte);
    lemma_byte(device, link, Page::Page1, 0xDF, byte);
    lemma_byte(device, link, Page::Page0, 0xF2, byte);
    lemma_byte(device, link, Page::Page0, 0xF1, byte);
    lemma_byte(device, link, Page::Page0, 0xF1, 0x00);
    lemma_byte(device, link, Page::Page0, 0xF1, 0x01);
}

/// The fast AUX multiplexer is left with its negative and, behind it, its positive input.
pub proof fn fast_aux_mux_is_left<E>(device: Device, link: LinkView<E>, mux_n: u8, mux_p: u8)
    requires
        is_ready(link, device, 1),
    ensures
        ({
            let outcome = link.write_fast_aux_mux(mux_n, mux_p);
            let after = result_of(device, link, outcome);
            &&& outcome.0 is Ok
            &&& (after.held)(Page::Page0, 0xF3) == mux_n
            &&& (after.held)(Page::Page0, 0xF4) == mux_p
            &&& after.agrees_outside(device, Page::Page0, 0xF3, 2)
        }),
{
    lemma_write(device, link, Page::Page0, 0xF3, seq![mux_n, mux_p]);
    let after = result_of(device, link, link.write_fast_aux_mux(mux_n, mux_p));
    assert(after.at(Page::Page0, 0xF3, 2)[0] == mux_n);
    assert(after.at(Page::Page0, 0xF3, 2)[1] == mux_p);
}

/// The overcurrent comparators are left with the byte of the first and of the second
/// configuration.
pub proof fn occ_config_is_left<E>(
    device: Device,
    link: LinkView<E>,
    config1: OverCurrentConfig,
    config2: OverCurrentConfig,
)
    requires
        is_ready(link, device, 2),
    ensures
        ({
            let outcome = link.write_occ_config(config1, config2);
            let after = result_of(device, link, outcome);
            &&& outcome.0 is Ok
            &&& (after.held)(Page::Page0, 0xDE) == config1.byte()
            &&& (after.held)(Page::Page0, 0xDF) == config2.byte()
            &&& after.agrees_outside_both(device, Page::Page0, 0xDE, 1, 0xDF, 1)
        }),
{
    lemma_two_writes(device, link, Page::Page0, 0xDE, seq![config1.byte()], 0xDF, seq![config2.byte()]);
    let after = result_of(device, link, link.write_occ_config(config1, config2));
    assert(after.at(Page::Page0, 0xDE, 1)[0] == config1.byte());
    assert(after.at(Page::Page0, 0xDF, 1)[0] == config2.byte());
}

/// Whether a pair of thresholds is sound: the low one is not above the high one, and both have
/// 16-bit codes over `lsb`.
pub open spec fn has_codes_16(low: Binary64, high: Binary64, lsb: Binary64) -> bool {
    &&& low.units() <= high.units()
    &&& crate::thresholds::code(low, lsb, -0x8000, 0x7FFF) is Some
    &&& crate::thresholds::code(high, lsb, -0x8000, 0x7FFF) is Some
}

/// Whether an operation leaves a pair of 16-bit thresholds in the four registers of PAGE1 from
/// `addr` on, the high one first, and changes no other register but the register control register.
pub open spec fn leaves_pair<E>(
    device: Device,
    link: LinkView<E>,
    outcome: (Result<(), Error<E>>, LinkView<E>),
    addr: u8,
    low: Binary64,
    high: Binary64,
    lsb: Binary64,
) -> bool {
    let after = result_of(device, link, outcome);
    &&& outcome.0 is Ok
    &&& holds_pair(after, addr, (addr + 2) as u8, 2, low, high, lsb)
    &&& after.agrees_outside(device, Page::Page1, addr, 4)
}

/// The thresholds of a current are left in the registers of its channel, over 3.8 uV and the shunt.
pub proof fn current_thresholds_are_left<E>(
    device: Device,
    link: LinkView<E>,
    channel: Channel,
    low: Binary32,
    high: Binary32,
    shunt_ohms: Binary32,
)
    requires
        is_ready(link, device, 1),
        shunt_ohms.widened().is_positive(),
        has_codes_16(low.widened(), high.widened(), crate::client::lsb_of(CurrentSenseVoltage::THRESHOLD_LSB_VOLTS).quotient(shunt_ohms.widened())),
    ensures
        leaves_pair(
            device,
            link,
            link.write_current_thresholds(channel, low, high, shunt_ohms),
            current_address(channel),
            low.widened(),
            high.widened(),
            crate::client::lsb_of(CurrentSenseVoltage::THRESHOLD_LSB_VOLTS).quotient(shunt_ohms.widened()),
        ),
{
    pair_16_is_left(device, link, current_address(channel), low.widened(), high.widened(), crate::client::lsb_of(CurrentSenseVoltage::THRESHOLD_LSB_VOLTS).quotient(shunt_ohms.widened()));
}

/// The thresholds of a power are left in the registers of its channel, over the power LSB and the
/// shunt.
pub proof fn power_thresholds_are_left<E>(
    device: Device,
    link: LinkView<E>,
    channel: Channel,
    low: Binary32,
    high: Binary32,
    shunt_ohms: Binary32,
)
    requires
        is_ready(link, device, 1),
        shunt_ohms.widened().is_positive(),
        has_codes_16(low.widened(), high.widened(), crate::client::lsb_of(PowerOrVoltage::POWER_THRESHOLD_LSB_VOLT_SQUARED).quotient(shunt_ohms.widened())),
    ensures
        leaves_pair(
            device,
            link,
            link.write_power_thresholds(channel, low, high, shunt_ohms),
            power_address(channel),
            low.widened(),
            high.widened(),
            crate::client::lsb_of(PowerOrVoltage::POWER_THRESHOLD_LSB_VOLT_SQUARED).quotient(shunt_ohms.widened()),
        ),
{
    pair_16_is_left(device, link, power_address(channel), low.widened(), high.widened(), crate::client::lsb_of(PowerOrVoltage::POWER_THRESHOLD_LSB_VOLT_SQUARED).quotient(shunt_ohms.widened()));
}

/// The thresholds of a power result that holds a voltage are left in the registers of its channel.
pub proof fn power_voltage_thresholds_are_left<E>(
    device: Device,
    link: LinkView<E>,
    channel: Channel,
    low: Binary32,
    high: Binary32,
)
    requires
        is_ready(link, device, 1),
        has_codes_16(low.widened(), high.widened(), crate::client::lsb_of(PowerOrVoltage::VOLTAGE_THRESHOLD_LSB_VOLTS)),
    ensures
        leaves_pair(
            device,
            link,
            link.write_power_as_voltage_thresholds(channel, low, high),
            power_address(channel),
            low.widened(),
            high.widened(),
            crate::client::lsb_of(PowerOrVoltage::VOLTAGE_THRESHOLD_LSB_VOLTS),
        ),
{
    pair_16_is_left(device, link, power_address(channel), low.widened(), high.widened(), crate::client::lsb_of(PowerOrVoltage::VOLTAGE_THRESHOLD_LSB_VOLTS));
}

/// The thresholds of the battery voltage are left in their registers.
pub proof fn battery_thresholds_are_left<E>(
    device: Device,
    link: LinkView<E>,
    low: Binary32,
    high: Binary32,
)
    requires
        is_ready(link, device, 1),
        has_codes_16(low.widened(), high.widened(), crate::client::lsb_of(BatteryVoltage::LSB_VOLTS)),
    ensures
        leaves_pair(
            device,
            link,
            link.write_battery_thresholds(low, high),
            0x90,
            low.widened(),
            high.widened(),
            crate::client::lsb_of(BatteryVoltage::LSB_VOLTS),
        ),
{
    pair_16_is_left(device, link, 0x90, low.widened(), high.widened(), crate::client::lsb_of(BatteryVoltage::LSB_VOLTS));
}

/// The thresholds of the die temperature are left in their registers, in kelvin.
pub proof fn temperature_thresholds_are_left<E>(
    device: Device,
    link: LinkView<E>,
    low: Binary32,
    high: Binary32,
)
    requires
        is_ready(link, device, 1),
        has_codes_16(crate::thresholds::kelvin(low), crate::thresholds::kelvin(high), crate::client::lsb_of(DieTemperature::LSB_KELVIN)),
    ensures
        leaves_pair(
            device,
            link,
            link.write_temperature_thresholds(low, high),
            0x94,
            crate::thresholds::kelvin(low),
            crate::thresholds::kelvin(high),
            crate::client::lsb_of(DieTemperature::LSB_KELVIN),
        ),
{
    pair_16_is_left(device, link, 0x94, crate::thresholds::kelvin(low), crate::thresholds::kelvin(high), crate::client::lsb_of(DieTemperature::LSB_KELVIN));
}

/// The thresholds of the supply voltage are left in their registers.
pub proof fn vcc_thresholds_are_left<E>(
    device: Device,
    link: LinkView<E>,
    low: Binary32,
    high: Binary32,
)
    requires
        is_ready(link, device, 1),
        has_codes_16(low.widened(), high.widened(), crate::client::lsb_of(SupplyVoltage::LSB_VOLTS)),
    ensures
        leaves_pair(
            device,
            link,
            link.write_vcc_thresholds(low, high),
            0x98,
            low.widened(),
            high.widened(),
            crate::client::lsb_of(SupplyVoltage::LSB_VOLTS),
        ),
{
    pair_16_is_left(device, link, 0x98, low.widened(), high.widened(), crate::client::lsb_of(SupplyVoltage::LSB_VOLTS));
}

/// The thresholds of a SLOT that holds a voltage are left in its registers.
pub proof fn slot_voltage_thresholds_are_left<E>(
    device: Device,
    link: LinkView<E>,
    slot: Channel,
    low: Binary32,
    high: Binary32,
)
    requires
        is_ready(link, device, 1),
        has_codes_16(low.widened(), high.widened(), crate::client::lsb_of(SlotValue::LSB_VOLTS)),
    ensures
        leaves_pair(
            device,
            link,
            link.write_slot_voltage_thresholds(slot, low, high),
            slot_address(slot),
            low.widened(),
            high.widened(),
            crate::client::lsb_of(SlotValue::LSB_VOLTS),
        ),
{
    pair_16_is_left(device, link, slot_address(slot), low.widened(), high.widened(), crate::client::lsb_of(SlotValue::LSB_VOLTS));
}

/// The thresholds of a SLOT that holds a temperature are left in its registers.
pub proof fn slot_temperature_thresholds_are_left<E>(
    device: Device,
    link: LinkView<E>,
    slot: Channel,
    low: Binary32,
    high: Binary32,
)
    requires
        is_ready(link, device, 1),
        has_codes_16(low.widened(), high.widened(), crate::client::lsb_of(SlotValue::LSB_DEGREES_CELSIUS)),
    ensures
        leaves_pair(
            device,
            link,
            link.write_slot_temperature_thresholds(slot, low, high),
            slot_address(slot),
            low.widened(),
            high.widened(),
            crate::client::lsb_of(SlotValue::LSB_DEGREES_CELSIUS),
        ),
{
    pair_16_is_left(device, link, slot_address(slot), low.widened(), high.widened(), crate::client::lsb_of(SlotValue::LSB_DEGREES_CELSIUS));
}

/// The ratio of the sense resistors and the gain correction of the battery divider have their own
/// registers, and so has a gain correction that is calculated from two resistances.
#[verifier::rlimit(40)]
pub proof fn gains_have_their_registers<E>(
    device: Device,
    link: LinkView<E>,
    channel: Channel,
    numerator: Binary32,
    denominator: Binary32,
)
    requires
        is_ready(link, device, 1),
        numerator.is_positive(),
        denominator.is_positive(),
        numerator.quotient(denominator).is_positive(),
    ensures
        ({
            let ratio = crate::float24::bytes_of(numerator.quotient(denominator));
            let shunts = result_of(device, link, link.write_shunt_ratio(numerator, denominator));
            let shunt = result_of(device, link, link.write_shunt_gain_from(channel, numerator, denominator));
            let battery = result_of(device, link, link.write_battery_gain(numerator));
            &&& shunts.at(Page::Page1, 0xB6, 3) == ratio
            &&& shunt.at(Page::Page1, shunt_gain_address(channel), 3) == ratio
            &&& battery.at(Page::Page1, 0xB9, 3) == crate::float24::bytes_of(numerator)
            &&& link.write_shunt_ratio(numerator, denominator).0 is Ok
            &&& link.write_shunt_gain_from(channel, numerator, denominator).0 is Ok
            &&& link.write_battery_gain(numerator).0 is Ok
        }),
{
    ratio_is_left(device, link, 0xB6, numerator, denominator);
    ratio_is_left(device, link, shunt_gain_address(channel), numerator, denominator);
    gain_is_left(device, link, 0xB9, numerator);
}

/// Requesting the memory lock leaves RDCVCONF set, BCREN clear and the lock field at one in the
/// register control register, and keeps the page that is known, or takes PAGE0 if none is;
/// releasing it does the same with the lock field at zero. No other register changes.
pub proof fn memory_lock_is_left<E>(device: Device, link: LinkView<E>)
    requires
        is_ready(link, device, 1),
    ensures
        ({
            let locking = link.request_memory_lock();
            let unlocking = link.unlock_memory();
            let locked = result_of(device, link, locking);
            let unlocked = result_of(device, link, unlocking);
            let page = if link.page is Some {
                device.page
            } else {
                Page::Page0
            };
            let page_bit: int = if page == Page::Page1 {
                1
            } else {
                0
            };
            &&& locking.0 is Ok && unlocking.0 is Ok
            &&& (locked.held)(Page::Page0, 0xFF) == 128 + 16 + page_bit
            &&& (unlocked.held)(Page::Page0, 0xFF) == 128 + page_bit
            &&& locked.page == page && unlocked.page == page
            &&& locking.1.page == Some(page)
            &&& locked.agrees_outside(device, Page::Page0, 0, 0)
            &&& unlocked.agrees_outside(device, Page::Page0, 0, 0)
        }),
{
    crate::device::command_reaches_the_device(device, link, 0xFF, seq![crate::link::lock_byte(crate::link::kept_page(link.page))]);
    crate::device::command_reaches_the_device(device, link, 0xFF, seq![crate::link::page_byte(crate::link::kept_page(link.page))]);
}

/// Waking up is two zero bytes on the bus, waking the port one, and neither changes a register.
pub proof fn wake_up_is_two_edges<E>(device: Device, link: LinkView<E>)
    requires
        is_ready(link, device, 1),
    ensures
        ({
            let edge = ActionView::Write(seq![0u8]);
            &&& link.start_wake_up().0 is Ok
            &&& link.start_wake_up().1.page is None
            &&& crate::device::actions_of(link, link.start_wake_up().1) == seq![edge, edge]
            &&& result_of(device, link, link.start_wake_up()) == device
            &&& link.wake_port().0 is Ok
            &&& link.wake_port().1.page == link.page
            &&& crate::device::actions_of(link, link.wake_port().1) == seq![edge]
            &&& result_of(device, link, link.wake_port()) == device
        }),
{
    let edge = ActionView::Write(seq![0u8]);
    let two = seq![edge, edge];
    let one = seq![edge];
    assert(crate::device::actions_of(link, link.start_wake_up().1) =~= two);
    assert(crate::device::actions_of(link, link.wake_port().1) =~= one);
    assert(two.drop_last() =~= one);
    assert(one.drop_last() =~= Seq::empty());
    assert(device.after_all(Seq::empty()) == device);
    assert(device.after_all(one) == device);
}

/// A long write leaves each byte in its own register: byte `i` at the address and `i`, however many
/// commands carry the data.
pub proof fn long_write_is_left<E>(device: Device, link: LinkView<E>, addr: u8, data: Seq<u8>)
    requires
        is_ready(link, device, 1 + data.len() / 16),
        data.len() > 0,
        addr + data.len() <= 0xFF,
    ensures
        ({
            let outcome = link.write_groups(addr, data);
            let after = result_of(device, link, outcome);
            &&& outcome.0 is Ok
            &&& after.at(device.page, addr, data.len()) == data
            &&& after.agrees_outside(device, device.page, addr, data.len())
            &&& after.page == device.page
        }),
    decreases data.len(),
{
    let each = (2 + 2 * link.end.len()) as int;
    let groups = (1 + data.len() / 16) as int;
    assert(groups * each >= each) by (nonlinear_arith)
        requires
            groups >= 1,
            each >= 0,
    ;
    if data.len() <= 16 {
        crate::device::command_reaches_the_device(device, link, addr, data);
        let after = device.with_data(addr, data);
        assert(after.at(device.page, addr, data.len()) =~= data);
    } else {
        let head = data.take(16);
        let rest = data.skip(16);
        let next = (addr + 16) as u8;
        crate::device::command_reaches_the_device(device, link, addr, head);
        let middle = link.dcmd_write(addr, head).1;
        let between = device.with_data(addr, head);
        assert(middle.bus.sent == link.bus.sent + (seq![crate::link::write_action(addr, head)] + link.end));
        assert(rest.len() / 16 == data.len() / 16 - 1);
        assert((groups - 1) * each == groups * each - each) by (nonlinear_arith);
        long_write_is_left(between, middle, next, rest);
        let outcome = link.write_groups(addr, data);
        assert(outcome == middle.write_groups(next, rest));
        let after = result_of(between, middle, outcome);
        crate::ltc2949::long_write_is_one_plan(middle, next, rest);
        let last = crate::ltc2949::group_actions(next, rest, link.end);
        assert(outcome.1.bus.sent == middle.bus.sent + last);
        let first = seq![crate::link::write_action(addr, head)] + link.end;
        assert(crate::device::actions_of(link, outcome.1) =~= first + last);
        assert(crate::device::actions_of(middle, outcome.1) =~= last);
        assert(crate::device::actions_of(link, middle) =~= first);
        crate::device::plans_reach_in_order(device, first, last);
        assert(result_of(device, link, outcome) == after);
        assert forall|i: int| 0 <= i < data.len() implies (after.held)(device.page, (addr + i) as u8) == data[i] by {
            if i < 16 {
                assert((after.held)(device.page, (addr + i) as u8) == (between.held)(device.page, (addr + i) as u8));
                assert(head[i] == data[i]);
            } else {
                let j = i - 16;
                assert(after.at(device.page, next, rest.len())[j] == rest[j]);
                assert((next + j) as u8 == (addr + i) as u8);
            }
        }
        assert(after.at(device.page, addr, data.len()) =~= data);
        assert forall|p: Page, at: u8|
            at != 0xFF && !(p == device.page && addr <= at < addr + data.len()) implies #[trigger] (after.held)(p, at) == (
        device.held)(p, at) by {
            assert((after.held)(p, at) == (between.held)(p, at));
        }
    }
}

} // verus!
