//! Laws of the register link that span several operations.
//!
//! They speak of [`LinkView`], over which the contracts of the clients are stated.
use vstd::prelude::*;

use crate::bus::{ActionView, TranscriptView};
use crate::error::Error;
use crate::fifo::FifoSample;
use crate::link::LinkView;
use crate::polling::{NoPolling, PollMethod, SDOLinePolling};
use crate::registers::Page;

verus! {

/// The reply of a device that sends `data` behind the five bytes of `echo`.
pub open spec fn reply_with(echo: Seq<u8>, data: Seq<u8>) -> Seq<u8> {
    echo + data + crate::pec15::pec(data)
}

/// Whether `reply` is `data` and its PEC, behind any five bytes.
pub open spec fn is_reply_with(reply: Seq<u8>, data: Seq<u8>) -> bool {
    reply.len() == data.len() + 7 && reply.skip(5) == data + crate::pec15::pec(data)
}

/// Reading gives back the bytes that the device sent with their PEC, whatever five bytes came
/// before them.
pub proof fn read_ignores_the_echo<E>(link: LinkView<E>, addr: u8, data: Seq<u8>)
    requires
        link.bus.covers(1 + link.end.len()),
        is_reply_with(link.bus.next_reply(), data),
    ensures
        link.dcmd_read(addr, data.len()).0 == Ok::<Seq<u8>, Error<E>>(data),
        link.dcmd_read(addr, data.len()).1 == link.perform(seq![crate::link::read_action(addr, data.len())] + link.end).1,
{
    let reply = link.bus.next_reply();
    let echo = reply.take(5);
    assert forall|i: int| 5 <= i < reply.len() implies reply[i] == (data + crate::pec15::pec(data))[i - 5] by {
        assert(reply[i] == reply.skip(5)[i - 5]);
    }
    assert(reply =~= reply_with(echo, data));
    read_gives_back_what_was_sent(link, addr, echo, data);
}

/// Reading gives back the bytes that the device sent with their PEC.
pub proof fn read_gives_back_what_was_sent<E>(link: LinkView<E>, addr: u8, echo: Seq<u8>, data: Seq<u8>)
    requires
        echo.len() == 5,
        link.bus.covers(1 + link.end.len()),
        link.bus.next_reply() == reply_with(echo, data),
    ensures
        link.dcmd_read(addr, data.len()).0 == Ok::<Seq<u8>, Error<E>>(data),
        link.dcmd_read(addr, data.len()).1 == link.perform(seq![crate::link::read_action(addr, data.len())] + link.end).1,
{
    let n = data.len();
    let reply = link.bus.next_reply();
    let action = seq![crate::link::read_action(addr, n)];
    assert(crate::dcmd::reply_data(reply, n) =~= data);
    assert(crate::dcmd::reply_pec(reply, n) =~= crate::pec15::pec(data));
    crate::bus::lemma_asked_in_order(link.bus, action, link.end);
}

/// A reply in which one byte of the data or of its PEC was altered on the way is refused, and
/// the page is not trusted afterwards.
pub proof fn corrupted_reply_is_refused<E>(
    link: LinkView<E>,
    addr: u8,
    echo: Seq<u8>,
    data: Seq<u8>,
    index: int,
    byte: u8,
)
    requires
        echo.len() == 5,
        link.bus.covers(1),
        5 <= index < data.len() + 7,
        byte != reply_with(echo, data)[index],
        link.bus.next_reply() == reply_with(echo, data).update(index, byte),
    ensures
        link.dcmd_read(addr, data.len()).0 == Err::<Seq<u8>, Error<E>>(Error::ChecksumMismatch),
        link.dcmd_read(addr, data.len()).1.page is None,
{
    let n = data.len();
    let reply = link.bus.next_reply();
    let pec = crate::pec15::pec(data);
    if index < n + 5 {
        assert(crate::dcmd::reply_data(reply, n) =~= data.update(index - 5, byte));
        assert(crate::dcmd::reply_pec(reply, n) =~= pec);
        crate::pec15::pec_detects_one_corrupted_byte(data, index - 5, byte);
    } else {
        assert(crate::dcmd::reply_data(reply, n) =~= data);
        assert(crate::dcmd::reply_pec(reply, n) =~= pec.update(index - 5 - n, byte));
        assert(pec[index - 5 - n] != byte);
        assert(pec.update(index - 5 - n, byte)[index - 5 - n] == byte);
    }
}

/// Writing to a page that is not known to be selected is selecting it and then writing, as
/// one sequence of actions.
pub proof fn write_selects_the_page_first<E>(link: LinkView<E>, page: Page, addr: u8, data: Seq<u8>)
    requires
        addr != crate::link::REGSCTRL,
        link.page != Some(page),
    ensures
        ({
            let select = seq![crate::link::write_action(crate::link::REGSCTRL, seq![crate::link::page_byte(page)])] + link.end;
            let write = seq![crate::link::write_action(addr, data)] + link.end;
            let outcome = link.write_register(page, addr, data);
            &&& outcome.0 == link.bus.verdict(select + write)
            &&& outcome.1.bus == link.bus.asked(select + write)
            &&& outcome.1.page == (if link.bus.covers(select.len()) {
                Some(page)
            } else {
                link.page
            })
        }),
{
    let select = seq![crate::link::write_action(crate::link::REGSCTRL, seq![crate::link::page_byte(page)])] + link.end;
    let write = seq![crate::link::write_action(addr, data)] + link.end;
    crate::bus::lemma_asked_in_order(link.bus, select, write);
}

/// Reading from a page that is not known to be selected is selecting it and then reading, in one
/// sequence of actions. A reply that is refused ends it before the command is ended.
pub proof fn read_selects_the_page_first<E>(link: LinkView<E>, page: Page, addr: u8, n: nat)
    requires
        link.page != Some(page),
    ensures
        ({
            let select = seq![crate::link::write_action(crate::link::REGSCTRL, seq![crate::link::page_byte(page)])] + link.end;
            let read = seq![crate::link::read_action(addr, n)];
            let selected = LinkView { page: Some(page), bus: link.bus.asked(select), ..link };
            let outcome = link.read_register(page, addr, n);
            let refused = outcome.0 == Err::<Seq<u8>, Error<E>>(Error::ChecksumMismatch);
            &&& outcome == (if link.bus.covers(select.len()) {
                selected.dcmd_read(addr, n)
            } else {
                (Err(link.bus.stop()), LinkView { bus: link.bus.asked(select), ..link })
            })
            &&& outcome.1.bus == link.bus.asked(if refused {
                select + read
            } else {
                select + (read + link.end)
            })
            &&& !refused ==> (outcome.0 is Ok <==> link.bus.covers((select + (read + link.end)).len()))
        }),
{
    let select = seq![crate::link::write_action(crate::link::REGSCTRL, seq![crate::link::page_byte(page)])] + link.end;
    let read = seq![crate::link::read_action(addr, n)];
    crate::bus::lemma_asked_in_order(link.bus, select, read);
    crate::bus::lemma_asked_in_order(link.bus, select, read + link.end);
    crate::bus::lemma_asked_in_order(link.bus.asked(select), read, link.end);
}

/// A write that the bus takes as a whole succeeds, leaves its page known, and is the last thing
/// that goes out.
pub proof fn accepted_write_goes_out_last<E>(link: LinkView<E>, page: Page, addr: u8, data: Seq<u8>)
    requires
        addr != crate::link::REGSCTRL,
        link.bus.covers(2 + 2 * link.end.len()),
    ensures
        ({
            let write = seq![crate::link::write_action(addr, data)] + link.end;
            let outcome = link.write_register(page, addr, data);
            &&& outcome.0 is Ok
            &&& outcome.1.page == Some(page)
            &&& write.is_suffix_of(outcome.1.bus.sent)
        }),
{
    let write = seq![crate::link::write_action(addr, data)] + link.end;
    let selected = link.select_page(page).1.bus.sent;
    assert((selected + write).subrange(selected.len() as int, (selected + write).len() as int) =~= write);
}

/// The register control register is on both pages, so that writing it selects no page first: it is
/// one command, whichever page is known, and leaves the known page as it is.
pub proof fn register_control_needs_no_page<E>(link: LinkView<E>, page: Page, data: Seq<u8>)
    ensures
        ({
            let outcome = link.write_register(page, 0xFF, data);
            let plan = seq![ActionView::Write(crate::dcmd::write_frame(0xFF, data))] + link.end;
            &&& outcome.0 == link.bus.verdict(plan)
            &&& outcome.1.bus == link.bus.asked(plan)
            &&& outcome.1.page == link.page
        }),
{
}

/// An access to the page that is known to be selected does not select it again: it is the
/// one command of the access.
pub proof fn known_page_is_not_selected_again<E>(link: LinkView<E>, page: Page, addr: u8, data: Seq<u8>, n: nat)
    requires
        link.page == Some(page),
    ensures
        link.write_register(page, addr, data) == link.dcmd_write(addr, data),
        link.read_register(page, addr, n) == link.dcmd_read(addr, n),
{
}

/// After an access to a page that succeeded, that page is the known one.
pub proof fn access_leaves_its_page_known<E>(link: LinkView<E>, page: Page, addr: u8, data: Seq<u8>, n: nat)
    ensures
        addr != crate::link::REGSCTRL && link.write_register(page, addr, data).0 is Ok ==> link.write_register(
            page,
            addr,
            data,
        ).1.page == Some(page),
        link.read_register(page, addr, n).0 is Ok ==> link.read_register(page, addr, n).1.page == Some(page),
{
}

/// Waking up forgets the page, so that the next access selects its page again.
pub proof fn wake_up_forgets_the_page<E>(link: LinkView<E>, page: Page)
    ensures
        link.start_wake_up().1.page is None,
        link.start_wake_up().1.select_page(page).1.bus == link.start_wake_up().1.dcmd_write(
            crate::link::REGSCTRL,
            seq![crate::link::page_byte(page)],
        ).1.bus,
{
}

/// Once the memory lock is granted, reads of the locked page go out without touching the
/// register control register, which would release the lock; unlocking keeps the page.
pub proof fn lock_is_kept_by_reads_of_its_page<E>(link: LinkView<E>, addr: u8, n: nat)
    requires
        link.request_memory_lock().0 is Ok,
    ensures
        ({
            let locked = link.request_memory_lock().1;
            let page = crate::link::kept_page(link.page);
            &&& locked.page == Some(page)
            &&& locked.read_register(page, addr, n) == locked.dcmd_read(addr, n)
            &&& locked.dcmd_read(addr, n).0 is Ok ==> {
                let read = locked.dcmd_read(addr, n).1;
                &&& read.page == Some(page)
                &&& read.unlock_memory() == read.dcmd_write(
                    crate::link::REGSCTRL,
                    seq![crate::link::page_byte(page)],
                )
            }
        }),
{
}

/// The page that an action selects, if it is a write of the register control register.
pub open spec fn page_selected_by(action: ActionView) -> Option<Page> {
    match action {
        ActionView::Write(frame) => if frame.len() == 8 && frame[0] == crate::dcmd::DCMD && frame[1]
            == crate::link::REGSCTRL {
            if crate::registers::bit(frame[5], 0) {
                Some(Page::Page1)
            } else {
                Some(Page::Page0)
            }
        } else {
            None
        },
        _ => None,
    }
}

/// The page that a device is on after `actions`, if one of them has selected a page.
pub open spec fn device_page(actions: Seq<ActionView>) -> Option<Page>
    decreases actions.len(),
{
    if actions.len() == 0 {
        None
    } else {
        match page_selected_by(actions.last()) {
            Some(page) => Some(page),
            None => device_page(actions.drop_last()),
        }
    }
}

/// Whether the known page, if there is one, is the page that the device is on after
/// `earlier` and the actions of the link that were answered.
pub open spec fn is_coherent<E>(earlier: Seq<ActionView>, link: LinkView<E>) -> bool {
    link.page matches Some(page) ==> device_page(earlier + link.bus.acknowledged()) == Some(page)
}

/// Whether no action of `plan` selects a page.
pub open spec fn selects_nothing(plan: Seq<ActionView>) -> bool {
    forall|i: int| 0 <= i < plan.len() ==> page_selected_by(#[trigger] plan[i]) is None
}

proof fn lemma_device_page_after_nothing(actions: Seq<ActionView>, plan: Seq<ActionView>)
    requires
        selects_nothing(plan),
    ensures
        device_page(actions + plan) == device_page(actions),
    decreases plan.len(),
{
    let all = actions + plan;
    if plan.len() == 0 {
        assert(all =~= actions);
    } else {
        assert(all.last() == plan.last());
        assert(all.drop_last() =~= actions + plan.drop_last());
        assert forall|i: int| 0 <= i < plan.drop_last().len() implies page_selected_by(
            #[trigger] plan.drop_last()[i],
        ) is None by {
            assert(plan.drop_last()[i] == plan[i]);
        }
        lemma_device_page_after_nothing(actions, plan.drop_last());
    }
}

/// What is acknowledged after asking for a plan is what was acknowledged before and a prefix
/// of the plan.
proof fn lemma_acknowledged<E>(bus: TranscriptView<E>, plan: Seq<ActionView>) -> (count: int)
    requires
        bus.sent.len() <= bus.replies.len(),
    ensures
        0 <= count <= plan.len(),
        bus.asked(plan).acknowledged() == bus.acknowledged() + plan.take(count),
        count == plan.len() <==> bus.covers(plan.len()),
        bus.covers(plan.len()) ==> bus.asked(plan).sent.len() <= bus.replies.len(),
        bus.covers(1) && plan.len() > 0 ==> count >= 1,
{
    let left = bus.replies.len() - bus.sent.len();
    if bus.covers(plan.len()) {
        assert(plan.take(plan.len() as int) =~= plan);
        assert(bus.asked(plan).acknowledged() =~= bus.acknowledged() + plan);
        plan.len() as int
    } else {
        assert(bus.asked(plan).acknowledged() =~= bus.acknowledged() + plan.take(left));
        left
    }
}

/// Asking for actions that select no page keeps a coherent link coherent.
proof fn lemma_coherent_after_nothing<E>(earlier: Seq<ActionView>, link: LinkView<E>, plan: Seq<ActionView>)
    requires
        link.bus.sent.len() <= link.bus.replies.len(),
        is_coherent(earlier, link),
        selects_nothing(plan),
    ensures
        is_coherent(earlier, link.perform(plan).1),
{
    let count = lemma_acknowledged(link.bus, plan);
    let part = plan.take(count);
    assert forall|i: int| 0 <= i < part.len() implies page_selected_by(#[trigger] part[i]) is None by {
        assert(part[i] == plan[i]);
    }
    lemma_device_page_after_nothing(earlier + link.bus.acknowledged(), part);
    assert(earlier + (link.bus.acknowledged() + part) =~= (earlier + link.bus.acknowledged()) + part);
}

/// The device is on `page` after a plan that starts by selecting it.
proof fn lemma_device_page_after_selection(
    actions: Seq<ActionView>,
    select: ActionView,
    end: Seq<ActionView>,
    count: int,
    page: Page,
)
    requires
        page_selected_by(select) == Some(page),
        selects_nothing(end),
        1 <= count <= 1 + end.len(),
    ensures
        device_page(actions + (seq![select] + end).take(count)) == Some(page),
{
    let rest = end.take(count - 1);
    assert forall|i: int| 0 <= i < rest.len() implies page_selected_by(#[trigger] rest[i]) is None by {
        assert(rest[i] == end[i]);
    }
    assert(actions + (seq![select] + end).take(count) =~= actions.push(select) + rest);
    lemma_device_page_after_nothing(actions.push(select), rest);
    assert(actions.push(select).last() == select);
}

/// A write frame of one byte to the register control register selects a page by its low bit.
proof fn lemma_selecting_frames(page: Page)
    ensures
        page_selected_by(crate::link::write_action(crate::link::REGSCTRL, seq![crate::link::page_byte(page)])) == Some(page),
        page_selected_by(crate::link::write_action(crate::link::REGSCTRL, seq![crate::link::lock_byte(page)])) == Some(page),
{
    assert(!crate::registers::bit(0x80, 0) && crate::registers::bit(0x81, 0) && !crate::registers::bit(0x90, 0)
        && crate::registers::bit(0x91, 0)) by (bit_vector);
    let select = crate::dcmd::write_frame(crate::link::REGSCTRL, seq![crate::link::page_byte(page)]);
    let lock = crate::dcmd::write_frame(crate::link::REGSCTRL, seq![crate::link::lock_byte(page)]);
    assert(select.len() == 8 && select[0] == 0xFE && select[1] == 0xFF && select[5] == crate::link::page_byte(page));
    assert(lock.len() == 8 && lock[0] == 0xFE && lock[1] == 0xFF && lock[5] == crate::link::lock_byte(page));
}

/// Selecting a page keeps the known page in step with the device.
///
/// The one case that is left out is a selection that the device has taken while the actions
/// that end the command did not get through: the page known before is kept then.
pub proof fn selection_stays_coherent<E>(earlier: Seq<ActionView>, link: LinkView<E>, page: Page)
    requires
        link.bus.sent.len() <= link.bus.replies.len(),
        is_coherent(earlier, link),
        selects_nothing(link.end),
        link.page is Some && link.page != Some(page) && link.bus.covers(1) ==> link.bus.covers(1 + link.end.len()),
    ensures
        is_coherent(earlier, link.select_page(page).1),
{
    if link.page != Some(page) {
        lemma_selecting_frames(page);
        let select = crate::link::write_action(crate::link::REGSCTRL, seq![crate::link::page_byte(page)]);
        let plan = seq![select] + link.end;
        let count = lemma_acknowledged(link.bus, plan);
        let done = earlier + link.bus.acknowledged();
        assert(earlier + (link.bus.acknowledged() + plan.take(count)) =~= done + plan.take(count));
        if count >= 1 {
            lemma_device_page_after_selection(done, select, link.end, count, page);
        } else {
            assert(done + plan.take(0) =~= done);
        }
    }
}

/// Writing a register other than the register control register, and reading, on the page the
/// device is on keep the known page in step with the device.
pub proof fn access_stays_coherent<E>(earlier: Seq<ActionView>, link: LinkView<E>, addr: u8, data: Seq<u8>, n: nat)
    requires
        link.bus.sent.len() <= link.bus.replies.len(),
        is_coherent(earlier, link),
        selects_nothing(link.end),
        addr != crate::link::REGSCTRL,
    ensures
        is_coherent(earlier, link.dcmd_write(addr, data).1),
        is_coherent(earlier, link.dcmd_read(addr, n).1),
{
    let write = seq![crate::link::write_action(addr, data)] + link.end;
    let frame = crate::dcmd::write_frame(addr, data);
    assert(frame[1] == addr);
    assert forall|i: int| 0 <= i < write.len() implies page_selected_by(#[trigger] write[i]) is None by {
        if i > 0 {
            assert(write[i] == link.end[i - 1]);
        }
    }
    lemma_coherent_after_nothing(earlier, link, write);
    let read = seq![crate::link::read_action(addr, n)];
    assert(selects_nothing(read));
    lemma_coherent_after_nothing(earlier, link, read);
    let asked = link.perform(read);
    if asked.0 is Ok {
        lemma_coherent_after_nothing(earlier, asked.1, link.end);
    }
}

/// Register accesses with their page selection keep the known page in step with the device.
/// The case that is left out is that of [`selection_stays_coherent`].
pub proof fn register_access_stays_coherent<E>(
    earlier: Seq<ActionView>,
    link: LinkView<E>,
    page: Page,
    addr: u8,
    data: Seq<u8>,
    n: nat,
)
    requires
        link.bus.sent.len() <= link.bus.replies.len(),
        is_coherent(earlier, link),
        selects_nothing(link.end),
        addr != crate::link::REGSCTRL,
        link.page is Some && link.page != Some(page) && link.bus.covers(1) ==> link.bus.covers(1 + link.end.len()),
    ensures
        is_coherent(earlier, link.write_register(page, addr, data).1),
        is_coherent(earlier, link.read_register(page, addr, n).1),
{
    selection_stays_coherent(earlier, link, page);
    if link.select_page(page).0 is Ok {
        access_stays_coherent(earlier, link.select_page(page).1, addr, data, n);
    }
}

/// Locking and unlocking the memory keep the known page in step with the device.
pub proof fn lock_stays_coherent<E>(earlier: Seq<ActionView>, link: LinkView<E>)
    requires
        link.bus.sent.len() <= link.bus.replies.len(),
        is_coherent(earlier, link),
        selects_nothing(link.end),
    ensures
        is_coherent(earlier, link.request_memory_lock().1),
        is_coherent(earlier, link.unlock_memory().1),
{
    let page = crate::link::kept_page(link.page);
    lemma_selecting_frames(page);
    let lock = crate::link::write_action(crate::link::REGSCTRL, seq![crate::link::lock_byte(page)]);
    let unlock = crate::link::write_action(crate::link::REGSCTRL, seq![crate::link::page_byte(page)]);
    let done = earlier + link.bus.acknowledged();
    let locking = lemma_acknowledged(link.bus, seq![lock] + link.end);
    let unlocking = lemma_acknowledged(link.bus, seq![unlock] + link.end);
    assert(earlier + (link.bus.acknowledged() + (seq![lock] + link.end).take(locking)) =~= done + (seq![lock]
        + link.end).take(locking));
    assert(earlier + (link.bus.acknowledged() + (seq![unlock] + link.end).take(unlocking)) =~= done + (seq![unlock]
        + link.end).take(unlocking));
    if locking >= 1 {
        lemma_device_page_after_selection(done, lock, link.end, locking, page);
    } else {
        assert(done + (seq![lock] + link.end).take(0) =~= done);
    }
    if unlocking >= 1 {
        lemma_device_page_after_selection(done, unlock, link.end, unlocking, page);
    } else {
        assert(done + (seq![unlock] + link.end).take(0) =~= done);
    }
}

/// Waking up, waking the port and sending a 16-bit command keep the known page in step with
/// the device.
pub proof fn wake_up_stays_coherent<E>(earlier: Seq<ActionView>, link: LinkView<E>, cmd: u16)
    requires
        link.bus.sent.len() <= link.bus.replies.len(),
        is_coherent(earlier, link),
        selects_nothing(link.end),
    ensures
        is_coherent(earlier, link.start_wake_up().1),
        is_coherent(earlier, link.wake_port().1),
        is_coherent(earlier, link.send_cmd16(cmd).1),
{
    let edge = seq![crate::link::wake_action()];
    assert(selects_nothing(edge));
    lemma_coherent_after_nothing(earlier, link, edge);
    let command = seq![ActionView::Write(crate::dcmd::cmd16_frame(cmd))] + link.end;
    assert forall|i: int| 0 <= i < command.len() implies page_selected_by(#[trigger] command[i]) is None by {
        if i > 0 {
            assert(command[i] == link.end[i - 1]);
        }
    }
    lemma_coherent_after_nothing(earlier, link, command);
}

/// Writing two registers keeps the known page in step with the device. The case that is left
/// out is that of [`selection_stays_coherent`].
pub proof fn two_writes_stay_coherent<E>(
    earlier: Seq<ActionView>,
    link: LinkView<E>,
    page: Page,
    first_addr: u8,
    first: Seq<u8>,
    second_addr: u8,
    second: Seq<u8>,
)
    requires
        link.bus.sent.len() <= link.bus.replies.len(),
        is_coherent(earlier, link),
        selects_nothing(link.end),
        first_addr != crate::link::REGSCTRL,
        second_addr != crate::link::REGSCTRL,
        link.page is Some && link.page != Some(page) && link.bus.covers(1) ==> link.bus.covers(1 + link.end.len()),
    ensures
        is_coherent(earlier, link.write_two_registers(page, first_addr, first, second_addr, second).1),
{
    register_access_stays_coherent(earlier, link, page, first_addr, first, 0);
    let written = link.write_register(page, first_addr, first);
    if written.0 is Ok {
        access_leaves_its_page_known(link, page, first_addr, first, 0);
        register_access_stays_coherent(earlier, written.1, page, second_addr, second, 0);
    }
}

/// Draining a FIFO keeps the known page in step with the device. The case that is left out is
/// that of [`selection_stays_coherent`].
pub proof fn drain_stays_coherent<E>(earlier: Seq<ActionView>, link: LinkView<E>, addr: u8, room: nat, burst: nat)
    requires
        link.bus.sent.len() <= link.bus.replies.len(),
        is_coherent(earlier, link),
        selects_nothing(link.end),
        addr != crate::link::REGSCTRL,
        link.page == Some(Page::Page1) && link.bus.covers(1) ==> link.bus.covers(1 + link.end.len()),
    ensures
        is_coherent(earlier, link.drain(addr, room, burst).1),
    decreases room,
{
    if room > 0 && burst > 0 {
        let count = crate::fifo::burst_len(room, burst);
        register_access_stays_coherent(earlier, link, Page::Page0, addr, Seq::empty(), 3 * count);
        let read = link.read_register(Page::Page0, addr, 3 * count);
        if read.0 is Ok {
            access_leaves_its_page_known(link, Page::Page0, addr, Seq::empty(), 3 * count);
            drain_stays_coherent(earlier, read.1, addr, (room - count) as nat, burst);
        }
    }
}

/// A result shows one outcome only: it is a success exactly if the outcome is one, with the value
/// that the outcome holds, and an error exactly if the outcome is that error.
pub proof fn results_show_their_outcome<T: View, E>(result: Result<T, Error<E>>, outcome: Result<T::V, Error<E>>)
    ensures
        crate::link::yields(result, outcome) <==> {
            &&& result is Ok <==> outcome is Ok
            &&& result is Ok ==> result->Ok_0@ == outcome->Ok_0
            &&& result is Err ==> result->Err_0 == outcome->Err_0
        },
{
}

/// The number of a result is the integer it holds, and its error is kept.
pub proof fn numbers_show_their_result<T: Integer, E>(result: Result<T, Error<E>>)
    ensures
        result is Ok <==> crate::link::number(result) is Ok,
        result is Ok ==> crate::link::number(result)->Ok_0 == result->Ok_0 as int,
        result is Err ==> crate::link::number(result)->Err_0 == result->Err_0,
{
}

/// A wait comes with every success and with no failure, and is the one of the operation.
pub proof fn waits_come_with_success<E>(outcome: Result<(), Error<E>>, wait_us: u32)
    ensures
        crate::client::in_time(outcome, wait_us) is Ok <==> outcome is Ok,
        outcome is Ok ==> crate::client::in_time(outcome, wait_us)->Ok_0 == wait_us,
        outcome is Err ==> crate::client::in_time(outcome, wait_us)->Err_0 == outcome->Err_0,
{
}

/// A drain shows the samples of its outcome, each in its place, or its error.
pub proof fn samples_show_their_outcome<E, const N: usize>(
    result: Result<heapless::Vec<FifoSample, N>, Error<E>>,
    outcome: Result<Seq<FifoSample>, Error<E>>,
)
    ensures
        crate::fifo::yields_samples(result, outcome) <==> {
            &&& result is Ok <==> outcome is Ok
            &&& result is Ok ==> crate::fifo::held(result->Ok_0) == outcome->Ok_0
            &&& result is Err ==> result->Err_0 == outcome->Err_0
        },
{
}

/// Without polling nothing ends a command; with SDO line polling the chip select is released, once.
pub proof fn policies_end_commands<E>(plain: NoPolling, line: SDOLinePolling)
    ensures
        <NoPolling as PollMethod<E>>::end_actions(&plain) == Seq::<ActionView>::empty(),
        <SDOLinePolling as PollMethod<E>>::end_actions(&line) == seq![ActionView::ReleaseCs],
        crate::device::is_quiet(<NoPolling as PollMethod<E>>::end_actions(&plain)),
        crate::device::is_quiet(<SDOLinePolling as PollMethod<E>>::end_actions(&line)),
{
}

/// A plan is asked for one action after the other, in order. If every action has a reply, all of
/// them go out and the plan succeeds. Otherwise the plan stops with the first action that has no
/// reply, which is asked for too: with the failure that was entered for it, which is used up, or by
/// awaiting its reply.
pub proof fn plans_stop_at_the_first_unanswered_action<E>(bus: TranscriptView<E>, plan: Seq<ActionView>)
    requires
        plan.len() > 0,
        bus.sent.len() <= bus.replies.len(),
    ensures
        ({
            let room = bus.replies.len() - bus.sent.len();
            let after = bus.asked(plan);
            &&& after.replies == bus.replies
            &&& plan.len() <= room ==> bus.verdict(plan) is Ok && after.sent == bus.sent + plan && after.failure == bus.failure
            &&& plan.len() > room ==> after.sent == bus.sent + plan.take(room + 1) && after.failure is None
            &&& plan.len() > room && bus.failure is Some ==> bus.verdict(plan) == Err::<(), Error<E>>(
                Error::BusError(bus.failure->0),
            )
            &&& plan.len() > room && bus.failure is None ==> bus.verdict(plan) == Err::<(), Error<E>>(Error::Awaiting)
        }),
{
}

/// Every error has its own name.
pub proof fn errors_have_their_names<E>(error: E)
    ensures
        Error::BusError(error).name()@ == "BusError"@,
        Error::<E>::ChecksumMismatch.name()@ == "ChecksumMismatch"@,
        Error::<E>::InvalidThreshold.name()@ == "InvalidThreshold"@,
        Error::<E>::InvalidGainCorrection.name()@ == "InvalidGainCorrection"@,
        Error::<E>::Awaiting.name()@ == "Awaiting"@,
{
}

} // verus!
