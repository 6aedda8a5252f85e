//! Why an operation can be run again and again until its last reply is there.
//!
//! An operation that lacks a reply stops with [`Error::Awaiting`]. With one reply more it asks
//! for the same actions again and goes on from there; once it has all its replies, further
//! ones change nothing. With a bus failure in place of the reply it asks for the same actions and
//! ends in that failure.
use vstd::prelude::*;

use crate::bus::{ActionView, TranscriptView};
use crate::error::Error;
use crate::link::LinkView;
use crate::registers::Page;

verus! {

impl<E> LinkView<E> {
    /// The link with one reply more.
    pub open spec fn with_reply(self, reply: Seq<u8>) -> Self {
        LinkView { bus: TranscriptView { replies: self.bus.replies.push(reply), ..self.bus }, ..self }
    }

    /// The link with a bus failure in place of the next reply.
    pub open spec fn with_failure(self, error: E) -> Self {
        LinkView { bus: TranscriptView { failure: Some(error), ..self.bus }, ..self }
    }

    /// Whether every action asked for has its reply, and the bus has not failed.
    pub open spec fn is_answered(self) -> bool {
        self.bus.failure is None && self.bus.sent.len() <= self.bus.replies.len()
    }
}

/// How the run `long` of an operation, with the reply `reply` more, continues the run `short`.
///
/// A run that waits has asked for exactly one action without a reply, and the longer run asks
/// for the same actions first. A run that does not wait is not changed by the reply.
pub open spec fn continues<T, E>(
    short: (Result<T, Error<E>>, LinkView<E>),
    long: (Result<T, Error<E>>, LinkView<E>),
    reply: Seq<u8>,
) -> bool {
    if short.0 == Err::<T, Error<E>>(Error::Awaiting) {
        &&& short.1.bus.sent.len() == short.1.bus.replies.len() + 1
        &&& short.1.bus.sent.is_prefix_of(long.1.bus.sent)
    } else {
        &&& short.1.is_answered()
        &&& long == (short.0, short.1.with_reply(reply))
    }
}

/// Asking for a plan continues when a reply is added.
pub proof fn perform_continues<E>(link: LinkView<E>, plan: Seq<ActionView>, reply: Seq<u8>)
    requires
        link.is_answered(),
    ensures
        continues(link.perform(plan), link.with_reply(reply).perform(plan), reply),
        link.bus.sent.is_prefix_of(link.perform(plan).1.bus.sent),
{
    let longer = link.with_reply(reply);
    let left = link.bus.replies.len() - link.bus.sent.len();
    if !link.bus.covers(plan.len()) {
        let short = link.perform(plan).1.bus.sent;
        let long = longer.perform(plan).1.bus.sent;
        assert(short =~= link.bus.sent + plan.take(left + 1));
        assert forall|i: int| 0 <= i < short.len() implies short[i] == long[i] by {}
    }
}

/// Asking for more actions only adds to those asked for, whatever replies there are.
proof fn lemma_sent_grows<E>(link: LinkView<E>, plan: Seq<ActionView>)
    ensures
        link.bus.sent.is_prefix_of(link.perform(plan).1.bus.sent),
{
}

proof fn lemma_prefix_is_transitive(first: Seq<ActionView>, second: Seq<ActionView>, third: Seq<ActionView>)
    requires
        first.is_prefix_of(second),
        second.is_prefix_of(third),
    ensures
        first.is_prefix_of(third),
{
    assert forall|i: int| 0 <= i < first.len() implies first[i] == third[i] by {
        assert(first[i] == second[i]);
    }
    assert(first =~= third.subrange(0, first.len() as int));
}

/// A read keeps what was asked for before it.
proof fn lemma_read_grows<E>(link: LinkView<E>, addr: u8, n: nat)
    ensures
        link.bus.sent.is_prefix_of(link.dcmd_read(addr, n).1.bus.sent),
{
    let read = seq![crate::link::read_action(addr, n)];
    let asked = link.perform(read);
    lemma_sent_grows(link, read);
    lemma_sent_grows(asked.1, link.end);
    if asked.0 is Ok {
        lemma_prefix_is_transitive(link.bus.sent, asked.1.bus.sent, asked.1.perform(link.end).1.bus.sent);
    }
}

/// Direct commands, and everything else that is a single plan, continue when a reply is added.
pub proof fn commands_continue<E>(link: LinkView<E>, addr: u8, data: Seq<u8>, cmd: u16, reply: Seq<u8>)
    requires
        link.is_answered(),
    ensures
        continues(link.dcmd_write(addr, data), link.with_reply(reply).dcmd_write(addr, data), reply),
        continues(link.send_cmd16(cmd), link.with_reply(reply).send_cmd16(cmd), reply),
        continues(link.wake_port(), link.with_reply(reply).wake_port(), reply),
        continues(link.start_wake_up(), link.with_reply(reply).start_wake_up(), reply),
        continues(link.request_memory_lock(), link.with_reply(reply).request_memory_lock(), reply),
        continues(link.unlock_memory(), link.with_reply(reply).unlock_memory(), reply),
{
    let page = crate::link::kept_page(link.page);
    perform_continues(link, seq![crate::link::write_action(addr, data)] + link.end, reply);
    perform_continues(link, seq![ActionView::Write(crate::dcmd::cmd16_frame(cmd))] + link.end, reply);
    perform_continues(link, seq![crate::link::wake_action()], reply);
    let woken = LinkView { page: None, ..link };
    perform_continues(woken, seq![crate::link::wake_action(), crate::link::wake_action()], reply);
    assert(woken.with_reply(reply) == (LinkView { page: None, ..link.with_reply(reply) }));
    perform_continues(
        link,
        seq![crate::link::write_action(crate::link::REGSCTRL, seq![crate::link::lock_byte(page)])] + link.end,
        reply,
    );
    perform_continues(
        link,
        seq![crate::link::write_action(crate::link::REGSCTRL, seq![crate::link::page_byte(page)])] + link.end,
        reply,
    );
}

/// A direct read continues when a reply is added.
pub proof fn read_continues<E>(link: LinkView<E>, addr: u8, n: nat, reply: Seq<u8>)
    requires
        link.is_answered(),
    ensures
        continues(link.dcmd_read(addr, n), link.with_reply(reply).dcmd_read(addr, n), reply),
{
    let longer = link.with_reply(reply);
    let read = seq![crate::link::read_action(addr, n)];
    let asked = link.perform(read);
    perform_continues(link, read, reply);
    if asked.0 is Ok {
        assert(longer.bus.next_reply() == link.bus.next_reply());
        perform_continues(asked.1, link.end, reply);
    } else {
        assert(asked.1.bus.sent =~= link.bus.sent + read);
        let after = longer.perform(read).1;
        lemma_sent_grows(after, longer.end);
        lemma_prefix_is_transitive(asked.1.bus.sent, after.bus.sent, after.perform(longer.end).1.bus.sent);
    }
}

/// Selecting a page continues when a reply is added.
pub proof fn selection_continues<E>(link: LinkView<E>, page: Page, reply: Seq<u8>)
    requires
        link.is_answered(),
    ensures
        continues(link.select_page(page), link.with_reply(reply).select_page(page), reply),
        link.bus.sent.is_prefix_of(link.select_page(page).1.bus.sent),
{
    let plan = seq![crate::link::write_action(crate::link::REGSCTRL, seq![crate::link::page_byte(page)])] + link.end;
    perform_continues(link, plan, reply);
    assert(link.bus.sent.is_prefix_of(link.bus.sent));
}

/// Writing a register, with its page selection, continues when a reply is added.
pub proof fn register_write_continues<E>(link: LinkView<E>, page: Page, addr: u8, data: Seq<u8>, reply: Seq<u8>)
    requires
        link.is_answered(),
    ensures
        continues(
            link.write_register(page, addr, data),
            link.with_reply(reply).write_register(page, addr, data),
            reply,
        ),
{
    if addr == crate::link::REGSCTRL {
        commands_continue(link, addr, data, 0, reply);
    } else {
        selection_continues(link, page, reply);
        let short = link.select_page(page);
        let long = link.with_reply(reply).select_page(page);
        if short.0 is Ok {
            commands_continue(short.1, addr, data, 0, reply);
        } else {
            let plan = seq![crate::link::write_action(addr, data)] + long.1.end;
            lemma_sent_grows(long.1, plan);
            lemma_prefix_is_transitive(short.1.bus.sent, long.1.bus.sent, long.1.perform(plan).1.bus.sent);
        }
    }
}

/// A write keeps what was asked for before it.
proof fn lemma_register_write_grows<E>(link: LinkView<E>, page: Page, addr: u8, data: Seq<u8>)
    ensures
        link.bus.sent.is_prefix_of(link.write_register(page, addr, data).1.bus.sent),
{
    let selected = link.select_page(page).1;
    let select = seq![crate::link::write_action(crate::link::REGSCTRL, seq![crate::link::page_byte(page)])] + link.end;
    let write = seq![crate::link::write_action(addr, data)] + link.end;
    lemma_sent_grows(link, select);
    lemma_sent_grows(link, write);
    lemma_sent_grows(selected, write);
    assert(link.bus.sent.is_prefix_of(selected.bus.sent));
    lemma_prefix_is_transitive(link.bus.sent, selected.bus.sent, selected.perform(write).1.bus.sent);
}

/// Writing two registers continues when a reply is added.
pub proof fn two_register_writes_continue<E>(
    link: LinkView<E>,
    page: Page,
    first_addr: u8,
    first: Seq<u8>,
    second_addr: u8,
    second: Seq<u8>,
    reply: Seq<u8>,
)
    requires
        link.is_answered(),
    ensures
        continues(
            link.write_two_registers(page, first_addr, first, second_addr, second),
            link.with_reply(reply).write_two_registers(page, first_addr, first, second_addr, second),
            reply,
        ),
{
    register_write_continues(link, page, first_addr, first, reply);
    let short = link.write_register(page, first_addr, first);
    let long = link.with_reply(reply).write_register(page, first_addr, first);
    if short.0 is Ok {
        register_write_continues(short.1, page, second_addr, second, reply);
    } else {
        lemma_register_write_grows(long.1, page, second_addr, second);
        lemma_prefix_is_transitive(
            short.1.bus.sent,
            long.1.bus.sent,
            long.1.write_register(page, second_addr, second).1.bus.sent,
        );
    }
}

/// Reading a register, with its page selection, continues when a reply is added.
pub proof fn register_read_continues<E>(link: LinkView<E>, page: Page, addr: u8, n: nat, reply: Seq<u8>)
    requires
        link.is_answered(),
    ensures
        continues(link.read_register(page, addr, n), link.with_reply(reply).read_register(page, addr, n), reply),
{
    selection_continues(link, page, reply);
    let short = link.select_page(page);
    let long = link.with_reply(reply).select_page(page);
    if short.0 is Ok {
        read_continues(short.1, addr, n, reply);
    } else {
        lemma_read_grows(long.1, addr, n);
        lemma_prefix_is_transitive(short.1.bus.sent, long.1.bus.sent, long.1.dcmd_read(addr, n).1.bus.sent);
    }
}

proof fn lemma_register_read_grows<E>(link: LinkView<E>, page: Page, addr: u8, n: nat)
    ensures
        link.bus.sent.is_prefix_of(link.read_register(page, addr, n).1.bus.sent),
{
    let selected = link.select_page(page).1;
    let select = seq![crate::link::write_action(crate::link::REGSCTRL, seq![crate::link::page_byte(page)])] + link.end;
    lemma_sent_grows(link, select);
    assert(link.bus.sent.is_prefix_of(selected.bus.sent));
    lemma_read_grows(selected, addr, n);
    lemma_prefix_is_transitive(link.bus.sent, selected.bus.sent, selected.dcmd_read(addr, n).1.bus.sent);
}

proof fn lemma_drain_grows<E>(link: LinkView<E>, addr: u8, room: nat, burst: nat)
    ensures
        link.bus.sent.is_prefix_of(link.drain(addr, room, burst).1.bus.sent),
    decreases room,
{
    if room > 0 && burst > 0 {
        let count = crate::fifo::burst_len(room, burst);
        let (outcome, read) = link.read_register(Page::Page0, addr, 3 * count);
        lemma_register_read_grows(link, Page::Page0, addr, 3 * count);
        lemma_drain_grows(read, addr, (room - count) as nat, burst);
        if outcome is Ok {
            lemma_prefix_is_transitive(
                link.bus.sent,
                read.bus.sent,
                read.drain(addr, (room - count) as nat, burst).1.bus.sent,
            );
        }
    }
}

/// Draining a FIFO continues when a reply is added.
pub proof fn drain_continues<E>(link: LinkView<E>, addr: u8, room: nat, burst: nat, reply: Seq<u8>)
    requires
        link.is_answered(),
    ensures
        continues(link.drain(addr, room, burst), link.with_reply(reply).drain(addr, room, burst), reply),
    decreases room,
{
    if room > 0 && burst > 0 {
        let count = crate::fifo::burst_len(room, burst);
        let short = link.read_register(Page::Page0, addr, 3 * count);
        let long = link.with_reply(reply).read_register(Page::Page0, addr, 3 * count);
        register_read_continues(link, Page::Page0, addr, 3 * count, reply);
        if let Ok(data) = short.0 {
            drain_continues(short.1, addr, (room - count) as nat, burst, reply);
        } else {
            lemma_drain_grows(long.1, addr, (room - count) as nat, burst);
            lemma_prefix_is_transitive(
                short.1.bus.sent,
                long.1.bus.sent,
                long.1.drain(addr, (room - count) as nat, burst).1.bus.sent,
            );
        }
    }
}

proof fn lemma_read_groups_grow<E>(link: LinkView<E>, addr: u8, n: nat)
    ensures
        link.bus.sent.is_prefix_of(link.read_groups(addr, n).1.bus.sent),
    decreases n,
{
    if n <= 16 {
        lemma_read_grows(link, addr, n);
    } else {
        let (outcome, read) = link.dcmd_read(addr, 16);
        let next = crate::ltc2949::next_group(addr);
        lemma_read_grows(link, addr, 16);
        lemma_read_groups_grow(read, next, (n - 16) as nat);
        if outcome is Ok {
            lemma_prefix_is_transitive(
                link.bus.sent,
                read.bus.sent,
                read.read_groups(next, (n - 16) as nat).1.bus.sent,
            );
        }
    }
}

/// Long writes and long reads continue when a reply is added.
pub proof fn grouped_access_continues<E>(link: LinkView<E>, addr: u8, data: Seq<u8>, n: nat, reply: Seq<u8>)
    requires
        link.is_answered(),
    ensures
        continues(link.write_groups(addr, data), link.with_reply(reply).write_groups(addr, data), reply),
        continues(link.read_groups(addr, n), link.with_reply(reply).read_groups(addr, n), reply),
    decreases n,
{
    let plan = crate::ltc2949::group_actions(addr, data, link.end);
    crate::ltc2949::long_write_is_one_plan(link, addr, data);
    crate::ltc2949::long_write_is_one_plan(link.with_reply(reply), addr, data);
    perform_continues(link, plan, reply);
    if n <= 16 {
        read_continues(link, addr, n, reply);
    } else {
        let short = link.dcmd_read(addr, 16);
        let long = link.with_reply(reply).dcmd_read(addr, 16);
        let next = crate::ltc2949::next_group(addr);
        read_continues(link, addr, 16, reply);
        if short.0 is Ok {
            grouped_access_continues(short.1, next, data, (n - 16) as nat, reply);
        } else {
            lemma_read_groups_grow(long.1, next, (n - 16) as nat);
            lemma_prefix_is_transitive(
                short.1.bus.sent,
                long.1.bus.sent,
                long.1.read_groups(next, (n - 16) as nat).1.bus.sent,
            );
        }
    }
}

/// How the run `failed` of an operation, with the bus failure `error` entered, differs from the
/// run `short` without it.
///
/// Where the operation waits, the failure takes the place of the awaited reply: the same actions
/// are asked for, the same page is known, and the operation ends in a bus error with `error`. A
/// run that does not wait is not changed, and does not meet the failure.
pub open spec fn fails<T, E>(
    short: (Result<T, Error<E>>, LinkView<E>),
    failed: (Result<T, Error<E>>, LinkView<E>),
    error: E,
) -> bool {
    if short.0 == Err::<T, Error<E>>(Error::Awaiting) {
        failed == (Err::<T, Error<E>>(Error::BusError(error)), short.1)
    } else {
        &&& short.1.is_answered()
        &&& failed == (short.0, short.1.with_failure(error))
    }
}

/// Asking for a plan ends in the failure of the bus.
pub proof fn perform_fails<E>(link: LinkView<E>, plan: Seq<ActionView>, error: E)
    requires
        link.is_answered(),
    ensures
        fails(link.perform(plan), link.with_failure(error).perform(plan), error),
{
}

/// Direct commands, and everything else that is a single plan, end in the failure of the bus.
pub proof fn commands_fail<E>(link: LinkView<E>, addr: u8, data: Seq<u8>, cmd: u16, error: E)
    requires
        link.is_answered(),
    ensures
        fails(link.dcmd_write(addr, data), link.with_failure(error).dcmd_write(addr, data), error),
        fails(link.send_cmd16(cmd), link.with_failure(error).send_cmd16(cmd), error),
        fails(link.wake_port(), link.with_failure(error).wake_port(), error),
        fails(link.start_wake_up(), link.with_failure(error).start_wake_up(), error),
        fails(link.request_memory_lock(), link.with_failure(error).request_memory_lock(), error),
        fails(link.unlock_memory(), link.with_failure(error).unlock_memory(), error),
{
}

/// A direct read ends in the failure of the bus.
pub proof fn read_fails<E>(link: LinkView<E>, addr: u8, n: nat, error: E)
    requires
        link.is_answered(),
    ensures
        fails(link.dcmd_read(addr, n), link.with_failure(error).dcmd_read(addr, n), error),
{
    let asked = link.perform(seq![crate::link::read_action(addr, n)]);
    if asked.0 is Ok {
        perform_fails(asked.1, link.end, error);
    }
}

/// Selecting a page ends in the failure of the bus.
pub proof fn selection_fails<E>(link: LinkView<E>, page: Page, error: E)
    requires
        link.is_answered(),
    ensures
        fails(link.select_page(page), link.with_failure(error).select_page(page), error),
{
}

/// Register accesses, with their page selection, end in the failure of the bus.
pub proof fn register_access_fails<E>(link: LinkView<E>, page: Page, addr: u8, data: Seq<u8>, n: nat, error: E)
    requires
        link.is_answered(),
    ensures
        fails(
            link.write_register(page, addr, data),
            link.with_failure(error).write_register(page, addr, data),
            error,
        ),
        fails(link.read_register(page, addr, n), link.with_failure(error).read_register(page, addr, n), error),
{
    commands_fail(link, addr, data, 0, error);
    selection_fails(link, page, error);
    let selected = link.select_page(page);
    if selected.0 is Ok {
        commands_fail(selected.1, addr, data, 0, error);
        read_fails(selected.1, addr, n, error);
    }
}

/// Writing two registers ends in the failure of the bus.
pub proof fn two_register_writes_fail<E>(
    link: LinkView<E>,
    page: Page,
    first_addr: u8,
    first: Seq<u8>,
    second_addr: u8,
    second: Seq<u8>,
    error: E,
)
    requires
        link.is_answered(),
    ensures
        fails(
            link.write_two_registers(page, first_addr, first, second_addr, second),
            link.with_failure(error).write_two_registers(page, first_addr, first, second_addr, second),
            error,
        ),
{
    register_access_fails(link, page, first_addr, first, 0, error);
    let written = link.write_register(page, first_addr, first);
    if written.0 is Ok {
        register_access_fails(written.1, page, second_addr, second, 0, error);
    }
}

/// Draining a FIFO ends in the failure of the bus.
pub proof fn drain_fails<E>(link: LinkView<E>, addr: u8, room: nat, burst: nat, error: E)
    requires
        link.is_answered(),
    ensures
        fails(link.drain(addr, room, burst), link.with_failure(error).drain(addr, room, burst), error),
    decreases room,
{
    if room > 0 && burst > 0 {
        let count = crate::fifo::burst_len(room, burst);
        register_access_fails(link, Page::Page0, addr, Seq::empty(), 3 * count, error);
        let read = link.read_register(Page::Page0, addr, 3 * count);
        if read.0 is Ok {
            drain_fails(read.1, addr, (room - count) as nat, burst, error);
        }
    }
}

/// Long writes and long reads end in the failure of the bus.
pub proof fn grouped_access_fails<E>(link: LinkView<E>, addr: u8, data: Seq<u8>, n: nat, error: E)
    requires
        link.is_answered(),
    ensures
        fails(link.write_groups(addr, data), link.with_failure(error).write_groups(addr, data), error),
        fails(link.read_groups(addr, n), link.with_failure(error).read_groups(addr, n), error),
    decreases n,
{
    crate::ltc2949::long_write_is_one_plan(link, addr, data);
    crate::ltc2949::long_write_is_one_plan(link.with_failure(error), addr, data);
    perform_fails(link, crate::ltc2949::group_actions(addr, data, link.end), error);
    if n <= 16 {
        read_fails(link, addr, n, error);
    } else {
        read_fails(link, addr, 16, error);
        let read = link.dcmd_read(addr, 16);
        if read.0 is Ok {
            grouped_access_fails(read.1, crate::ltc2949::next_group(addr), data, (n - 16) as nat, error);
        }
    }
}

} // verus!
