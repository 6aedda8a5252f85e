//! A model of the device behind the bus: what its registers hold after the actions that reach it,
//! and what it answers.
//!
//! The device takes apart the bytes on the bus by itself. A frame counts only if both of its
//! packet error codes match.
use vstd::prelude::*;

use crate::bus::ActionView;
use crate::error::Error;
use crate::link::LinkView;
use crate::registers::Page;

verus! {

/// The registers of an LTC2949 and the page that commands go to.
pub struct Device {
    pub page: Page,
    pub held: spec_fn(Page, u8) -> u8,
}

/// The address and the data of a frame that writes registers.
pub open spec fn written_by(frame: Seq<u8>) -> Option<(u8, Seq<u8>)> {
    let data = frame.subrange(5, frame.len() - 2);
    if frame.len() >= 8 && frame[0] == 0xFE && frame[4] == 0x5B && frame.subrange(2, 4) == crate::pec15::pec(
        frame.subrange(0, 2),
    ) && frame.subrange(frame.len() - 2, frame.len() as int) == crate::pec15::pec(data) {
        Some((frame[1], data))
    } else {
        None
    }
}

/// The address and the number of bytes of a frame that reads registers.
pub open spec fn asked_by(frame: Seq<u8>) -> Option<(u8, nat)> {
    if frame.len() >= 8 && frame[0] == 0xFE && frame[4] == 0x9B && frame.subrange(2, 4) == crate::pec15::pec(
        frame.subrange(0, 2),
    ) {
        Some((frame[1], (frame.len() - 7) as nat))
    } else {
        None
    }
}

impl Device {
    /// The device after `data` was written to the registers from `addr` on. The last register,
    /// 0xFF, is the register control register on both pages, and its lowest bit selects the page.
    pub open spec fn with_data(self, addr: u8, data: Seq<u8>) -> Self {
        Device {
            page: if addr + data.len() > 0xFF {
                if data[0xFF - addr] % 2 == 1 {
                    Page::Page1
                } else {
                    Page::Page0
                }
            } else {
                self.page
            },
            held: |page: Page, at: u8|
                if addr <= at < addr + data.len() && (page == self.page || at == 0xFF) {
                    data[at - addr]
                } else {
                    (self.held)(page, at)
                },
        }
    }

    /// The device after one action on the bus.
    pub open spec fn after(self, action: ActionView) -> Self {
        match action {
            ActionView::Write(frame) => match written_by(frame) {
                Some((addr, data)) => self.with_data(addr, data),
                None => self,
            },
            _ => self,
        }
    }

    /// The device after the actions of `plan`, in order.
    pub open spec fn after_all(self, plan: Seq<ActionView>) -> Self
        decreases plan.len(),
    {
        if plan.len() == 0 {
            self
        } else {
            self.after_all(plan.drop_last()).after(plan.last())
        }
    }

    /// The `n` bytes that the registers of the current page hold from `addr` on.
    pub open spec fn bytes_at(self, addr: u8, n: nat) -> Seq<u8> {
        Seq::new(n, |i: int| (self.held)(self.page, (addr + i) as u8))
    }

    /// The bytes of the `n` registers of `page` from `addr` on.
    pub open spec fn at(self, page: Page, addr: u8, n: nat) -> Seq<u8> {
        Seq::new(n, |i: int| (self.held)(page, (addr + i) as u8))
    }

    /// Whether `reply` is what the device answers an action with: the bytes that a read asks for,
    /// with their packet error code, behind any five bytes.
    pub open spec fn answers(self, action: ActionView, reply: Seq<u8>) -> bool {
        action matches ActionView::Transfer(frame) ==> asked_by(frame) matches Some((addr, n))
            ==> crate::laws::is_reply_with(reply, self.bytes_at(addr, n))
    }

    /// Whether the registers of `page` hold `data` from `addr` on.
    pub open spec fn holds(self, page: Page, addr: u8, data: Seq<u8>) -> bool {
        forall|i: int| 0 <= i < data.len() ==> (self.held)(page, (addr + i) as u8) == #[trigger] data[i]
    }

    /// Whether the registers of both pages hold what those of `other` hold, but for the register
    /// control register and the `n` registers of `page` from `addr` on.
    pub open spec fn agrees_outside(self, other: Self, page: Page, addr: u8, n: nat) -> bool {
        forall|p: Page, at: u8|
            at != 0xFF && !(p == page && addr <= at < addr + n) ==> #[trigger] (self.held)(p, at) == (other.held)(p, at)
    }

    /// Whether the registers of both pages hold what those of `other` hold, but for the register
    /// control register and two ranges of registers of `page`.
    pub open spec fn agrees_outside_both(
        self,
        other: Self,
        page: Page,
        first: u8,
        first_n: nat,
        second: u8,
        second_n: nat,
    ) -> bool {
        forall|p: Page, at: u8|
            at != 0xFF && !(p == page && (first <= at < first + first_n || second <= at < second + second_n))
                ==> #[trigger] (self.held)(p, at) == (other.held)(p, at)
    }
}

/// Whether the actions that end a command do nothing but release the chip select.
pub open spec fn is_quiet(end: Seq<ActionView>) -> bool {
    forall|i: int| 0 <= i < end.len() ==> #[trigger] end[i] == ActionView::ReleaseCs
}

/// Whether `link` talks to `device`: the page it knows, if it knows one, is that of the device,
/// and every action asked for so far has its reply.
pub open spec fn talks_to<E>(link: LinkView<E>, device: Device) -> bool {
    &&& is_quiet(link.end)
    &&& link.page matches Some(page) ==> device.page == page
    &&& link.bus.sent.len() <= link.bus.replies.len()
}

/// The actions of an operation that leads from `before` to `after`.
pub open spec fn actions_of<E>(before: LinkView<E>, after: LinkView<E>) -> Seq<ActionView> {
    after.bus.sent.skip(before.bus.sent.len() as int)
}

/// Whether the bus takes `n` more register accesses, each with its page selection.
pub open spec fn takes<E>(link: LinkView<E>, n: nat) -> bool {
    link.bus.sent.len() + n * (2 + 2 * link.end.len()) <= link.bus.replies.len()
}

/// The device that an operation leaves behind.
pub open spec fn left_by<E>(device: Device, before: LinkView<E>, after: LinkView<E>) -> Device {
    device.after_all(actions_of(before, after))
}

/// The actions of two plans reach the device one after the other.
pub proof fn plans_reach_in_order(device: Device, first: Seq<ActionView>, second: Seq<ActionView>)
    ensures
        device.after_all(first + second) == device.after_all(first).after_all(second),
    decreases second.len(),
{
    if second.len() == 0 {
        assert(first + second =~= first);
    } else {
        assert((first + second).drop_last() =~= first + second.drop_last());
        plans_reach_in_order(device, first, second.drop_last());
    }
}

/// Releasing the chip select changes nothing in the device.
proof fn lemma_quiet(device: Device, end: Seq<ActionView>)
    requires
        is_quiet(end),
    ensures
        device.after_all(end) == device,
    decreases end.len(),
{
    if end.len() > 0 {
        assert forall|i: int| 0 <= i < end.drop_last().len() implies #[trigger] end.drop_last()[i]
            == ActionView::ReleaseCs by {
            assert(end.drop_last()[i] == end[i]);
        }
        lemma_quiet(device, end.drop_last());
        assert(end.last() == end[end.len() - 1]);
    }
}

/// A write frame is one that a device takes, with the address and the data it was built from.
pub proof fn write_frames_are_taken(addr: u8, data: Seq<u8>)
    requires
        data.len() > 0,
    ensures
        written_by(crate::dcmd::write_frame(addr, data)) == Some((addr, data)),
        asked_by(crate::dcmd::write_frame(addr, data)) is None,
{
    let frame = crate::dcmd::write_frame(addr, data);
    assert(frame.subrange(0, 2) =~= seq![0xFEu8, addr]);
    assert(frame.subrange(2, 4) =~= crate::pec15::pec(seq![0xFEu8, addr]));
    assert(frame.subrange(5, frame.len() - 2) =~= data);
    assert(frame.subrange(frame.len() - 2, frame.len() as int) =~= crate::pec15::pec(data));
}

/// A read frame is one that a device answers, with the address and the number of bytes it was
/// built from, and it writes nothing.
pub proof fn read_frames_are_answered(addr: u8, n: nat)
    requires
        n > 0,
    ensures
        asked_by(crate::dcmd::read_frame(addr, n)) == Some((addr, n)),
        written_by(crate::dcmd::read_frame(addr, n)) is None,
{
    let frame = crate::dcmd::read_frame(addr, n);
    assert(frame.subrange(0, 2) =~= seq![0xFEu8, addr]);
    assert(frame.subrange(2, 4) =~= crate::pec15::pec(seq![0xFEu8, addr]));
}

/// The device after one write command with its end.
proof fn lemma_command_reaches(device: Device, addr: u8, data: Seq<u8>, end: Seq<ActionView>)
    requires
        data.len() > 0,
        is_quiet(end),
    ensures
        device.after_all(seq![crate::link::write_action(addr, data)] + end) == device.with_data(addr, data),
{
    let write = seq![crate::link::write_action(addr, data)];
    write_frames_are_taken(addr, data);
    plans_reach_in_order(device, write, end);
    assert(write.drop_last() =~= Seq::empty());
    assert(device.after_all(write) == device.with_data(addr, data)) by {
        assert(device.after_all(Seq::empty()) == device);
    }
    lemma_quiet(device.with_data(addr, data), end);
}

/// A write command on the page that the device is on reaches its registers.
pub proof fn command_reaches_the_device<E>(device: Device, link: LinkView<E>, addr: u8, data: Seq<u8>)
    requires
        talks_to(link, device),
        takes(link, 1),
        data.len() > 0,
    ensures
        link.dcmd_write(addr, data).0 is Ok,
        left_by(device, link, link.dcmd_write(addr, data).1) == device.with_data(addr, data),
{
    let plan = seq![crate::link::write_action(addr, data)] + link.end;
    assert(actions_of(link, link.dcmd_write(addr, data).1) =~= plan);
    lemma_command_reaches(device, addr, data, link.end);
}

/// Selecting a page brings the device onto it, and changes nothing but the register control
/// register: 0x80 for PAGE0 and 0x81 for PAGE1, that is RDCVCONF set, BCREN and MLK clear.
pub proof fn selection_reaches_the_device<E>(device: Device, link: LinkView<E>, page: Page)
    requires
        talks_to(link, device),
        link.page == Some(page) || link.bus.sent.len() + 1 + link.end.len() <= link.bus.replies.len(),
    ensures
        ({
            let outcome = link.select_page(page);
            let after = left_by(device, link, outcome.1);
            &&& outcome.0 is Ok
            &&& outcome.1.page == Some(page)
            &&& outcome.1.end == link.end
            &&& outcome.1.bus.replies == link.bus.replies
            &&& talks_to(outcome.1, after)
            &&& after.page == page
            &&& after.agrees_outside(device, page, 0, 0)
            &&& link.page != Some(page) ==> (after.held)(page, 0xFF) == (if page == Page::Page1 {
                0x81u8
            } else {
                0x80u8
            })
            &&& outcome.1.bus.sent.len() <= link.bus.sent.len() + 1 + link.end.len()
            &&& outcome.1.bus.sent == link.bus.sent + actions_of(link, outcome.1)
        }),
{
    let outcome = link.select_page(page);
    if link.page == Some(page) {
        assert(actions_of(link, outcome.1) =~= Seq::empty());
        assert(link.bus.sent + Seq::<ActionView>::empty() =~= link.bus.sent);
    } else {
        let data = seq![crate::link::page_byte(page)];
        let plan = seq![crate::link::write_action(0xFF, data)] + link.end;
        assert(actions_of(link, outcome.1) =~= plan);
        lemma_command_reaches(device, 0xFF, data, link.end);
    }
}

/// Writing a register leaves the data in the registers of its page, from its address on, and
/// changes no other register but the register control register.
pub proof fn write_reaches_the_registers<E>(device: Device, link: LinkView<E>, page: Page, addr: u8, data: Seq<u8>)
    requires
        talks_to(link, device),
        takes(link, 1),
        data.len() > 0,
        addr + data.len() <= 0xFF,
    ensures
        ({
            let outcome = link.write_register(page, addr, data);
            let after = left_by(device, link, outcome.1);
            &&& outcome.0 is Ok
            &&& outcome.1.page == Some(page)
            &&& talks_to(outcome.1, after)
            &&& after.page == page
            &&& after.holds(page, addr, data)
            &&& after.agrees_outside(device, page, addr, data.len())
            &&& outcome.1.end == link.end
            &&& outcome.1.bus.replies == link.bus.replies
            &&& outcome.1.bus.sent.len() <= link.bus.sent.len() + 2 + 2 * link.end.len()
            &&& outcome.1.bus.sent == link.bus.sent + actions_of(link, outcome.1)
        }),
{
    selection_reaches_the_device(device, link, page);
    let selected = link.select_page(page).1;
    let middle = left_by(device, link, selected);
    let plan = seq![crate::link::write_action(addr, data)] + link.end;
    let outcome = link.write_register(page, addr, data);
    assert(outcome.1.bus.sent =~= link.bus.sent + (actions_of(link, selected) + plan));
    assert(actions_of(link, outcome.1) =~= actions_of(link, selected) + plan);
    plans_reach_in_order(device, actions_of(link, selected), plan);
    lemma_command_reaches(middle, addr, data, link.end);
    let after = left_by(device, link, outcome.1);
    assert(after == middle.with_data(addr, data));
    assert forall|p: Page, at: u8|
        at != 0xFF && !(p == page && addr <= at < addr + data.len()) implies #[trigger] (after.held)(p, at) == (
    device.held)(p, at) by {
        assert((middle.held)(p, at) == (device.held)(p, at));
    }
}

/// Writing two registers leaves the data of both in the registers of their page, and changes no
/// other register but the register control register.
pub proof fn two_writes_reach_the_registers<E>(
    device: Device,
    link: LinkView<E>,
    page: Page,
    first_addr: u8,
    first: Seq<u8>,
    second_addr: u8,
    second: Seq<u8>,
)
    requires
        talks_to(link, device),
        takes(link, 2),
        first.len() > 0,
        second.len() > 0,
        first_addr + first.len() <= 0xFF,
        second_addr + second.len() <= 0xFF,
        first_addr + first.len() <= second_addr || second_addr + second.len() <= first_addr,
    ensures
        ({
            let outcome = link.write_two_registers(page, first_addr, first, second_addr, second);
            let after = left_by(device, link, outcome.1);
            &&& outcome.0 is Ok
            &&& outcome.1.page == Some(page)
            &&& talks_to(outcome.1, after)
            &&& after.page == page
            &&& after.holds(page, first_addr, first)
            &&& after.holds(page, second_addr, second)
            &&& after.agrees_outside_both(device, page, first_addr, first.len(), second_addr, second.len())
        }),
{
    write_reaches_the_registers(device, link, page, first_addr, first);
    let middle = link.write_register(page, first_addr, first).1;
    let between = left_by(device, link, middle);
    write_reaches_the_registers(between, middle, page, second_addr, second);
    let outcome = link.write_two_registers(page, first_addr, first, second_addr, second);
    let after = left_by(device, link, outcome.1);
    assert(actions_of(link, outcome.1) =~= actions_of(link, middle) + actions_of(middle, outcome.1));
    plans_reach_in_order(device, actions_of(link, middle), actions_of(middle, outcome.1));
    assert(after == left_by(between, middle, outcome.1));
    assert forall|i: int| 0 <= i < first.len() implies (after.held)(page, (first_addr + i) as u8) == #[trigger] first[i] by {
        assert((after.held)(page, (first_addr + i) as u8) == (between.held)(page, (first_addr + i) as u8));
    }
    assert forall|p: Page, at: u8|
        at != 0xFF && !(p == page && (first_addr <= at < first_addr + first.len() || second_addr <= at < second_addr
            + second.len())) implies #[trigger] (after.held)(p, at) == (device.held)(p, at) by {
        assert((after.held)(p, at) == (between.held)(p, at));
    }
}

/// Whether the replies to the actions of an operation that leads from `before` to `after` are
/// those of the device.
#[verifier::opaque]
pub open spec fn is_answered_by<E>(device: Device, before: LinkView<E>, after: LinkView<E>) -> bool {
    let actions = actions_of(before, after);
    forall|i: int|
        0 <= i < actions.len() && before.bus.sent.len() + i < before.bus.replies.len() ==> device.after_all(
            actions.take(i),
        ).answers(#[trigger] actions[i], before.bus.replies[before.bus.sent.len() + i])
}

/// A read asks for its command, whatever comes of it.
proof fn lemma_read_is_asked<E>(link: LinkView<E>, addr: u8, n: nat)
    requires
        link.bus.sent.len() + 1 + link.end.len() <= link.bus.replies.len(),
    ensures
        ({
            let sent = link.dcmd_read(addr, n).1.bus.sent;
            &&& sent.len() > link.bus.sent.len()
            &&& sent.take(link.bus.sent.len() as int) == link.bus.sent
            &&& sent[link.bus.sent.len() as int] == crate::link::read_action(addr, n)
        }),
{
    let read = seq![crate::link::read_action(addr, n)];
    let asked = link.perform(read).1;
    assert(asked.bus.sent =~= link.bus.sent + read);
    let sent = link.dcmd_read(addr, n).1.bus.sent;
    assert(sent == asked.bus.sent || sent == asked.bus.sent + link.end);
    assert(sent.take(link.bus.sent.len() as int) =~= link.bus.sent);
}

/// A read on the page that is known gives the bytes of the device, and leaves it as it is.
proof fn lemma_read_of_known_page<E>(device: Device, link: LinkView<E>, addr: u8, n: nat)
    requires
        is_quiet(link.end),
        n > 0,
        link.bus.sent.len() + 1 + link.end.len() <= link.bus.replies.len(),
        device.answers(crate::link::read_action(addr, n), link.bus.next_reply()),
    ensures
        link.dcmd_read(addr, n).0 == Ok::<Seq<u8>, Error<E>>(device.bytes_at(addr, n)),
        link.dcmd_read(addr, n).1.page == link.page,
        link.dcmd_read(addr, n).1.end == link.end,
        link.dcmd_read(addr, n).1.bus.replies == link.bus.replies,
        link.dcmd_read(addr, n).1.bus.sent == link.bus.sent + (seq![crate::link::read_action(addr, n)] + link.end),
        device.after_all(seq![crate::link::read_action(addr, n)] + link.end) == device,
{
    let read = seq![crate::link::read_action(addr, n)];
    read_frames_are_answered(addr, n);
    crate::laws::read_ignores_the_echo(link, addr, device.bytes_at(addr, n));
    plans_reach_in_order(device, read, link.end);
    assert(read.drop_last() =~= Seq::empty());
    assert(device.after_all(read) == device) by {
        assert(device.after_all(Seq::empty()) == device);
    }
    lemma_quiet(device, link.end);
}

/// The reply to the action that follows `first` is that of the device at that point.
proof fn lemma_reply_at<E>(
    device: Device,
    before: LinkView<E>,
    middle: LinkView<E>,
    after: LinkView<E>,
    action: ActionView,
)
    requires
        is_answered_by(device, before, after),
        before.bus.sent.len() <= middle.bus.sent.len() < after.bus.sent.len(),
        middle.bus.sent.len() < before.bus.replies.len(),
        after.bus.sent.take(middle.bus.sent.len() as int) == middle.bus.sent,
        after.bus.sent[middle.bus.sent.len() as int] == action,
    ensures
        left_by(device, before, middle).answers(action, before.bus.replies[middle.bus.sent.len() as int]),
{
    reveal(is_answered_by);
    let actions = actions_of(before, after);
    let i = middle.bus.sent.len() - before.bus.sent.len();
    assert(actions.take(i) =~= actions_of(before, middle)) by {
        assert forall|j: int| 0 <= j < i implies actions.take(i)[j] == actions_of(before, middle)[j] by {
            assert(after.bus.sent.take(middle.bus.sent.len() as int)[before.bus.sent.len() + j]
                == after.bus.sent[before.bus.sent.len() + j]);
        }
    }
    assert(actions[i] == action);
}

/// Reading gives the bytes that the registers of the page hold, changes none of them but the
/// register control register, and is never refused.
pub proof fn read_gives_the_registers<E>(device: Device, link: LinkView<E>, page: Page, addr: u8, n: nat)
    requires
        talks_to(link, device),
        takes(link, 1),
        n > 0,
        addr + n <= 0xFF,
        is_answered_by(device, link, link.read_register(page, addr, n).1),
    ensures
        ({
            let outcome = link.read_register(page, addr, n);
            let after = left_by(device, link, outcome.1);
            &&& outcome.0 matches Ok(data) && data.len() == n && device.holds(page, addr, data)
            &&& outcome.1.page == Some(page)
            &&& talks_to(outcome.1, after)
            &&& after.page == page
            &&& after.agrees_outside(device, page, 0, 0)
        }),
{
    selection_reaches_the_device(device, link, page);
    let selected = link.select_page(page).1;
    let middle = left_by(device, link, selected);
    let first = actions_of(link, selected);
    let outcome = link.read_register(page, addr, n);
    let actions = actions_of(link, outcome.1);
    assert(outcome == selected.dcmd_read(addr, n));
    lemma_read_is_asked(selected, addr, n);
    lemma_reply_at(device, link, selected, outcome.1, crate::link::read_action(addr, n));
    lemma_read_of_known_page(middle, selected, addr, n);
    let rest = seq![crate::link::read_action(addr, n)] + link.end;
    assert(actions =~= first + rest);
    plans_reach_in_order(device, first, rest);
    let data = middle.bytes_at(addr, n);
    assert forall|i: int| 0 <= i < data.len() implies (device.held)(page, (addr + i) as u8) == #[trigger] data[i] by {
        assert((middle.held)(page, (addr + i) as u8) == (device.held)(page, (addr + i) as u8));
    }
}

/// Registers that hold `data` have it as their bytes.
pub proof fn held_data_is_at(device: Device, page: Page, addr: u8, data: Seq<u8>)
    requires
        device.holds(page, addr, data),
    ensures
        device.at(page, addr, data.len()) == data,
{
    assert forall|i: int| 0 <= i < data.len() implies device.at(page, addr, data.len())[i] == data[i] by {}
    assert(device.at(page, addr, data.len()) =~= data);
}

} // verus!
