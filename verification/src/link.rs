//! The register link: direct commands over an SPI transcript, with a cached page selection.
use vstd::prelude::*;

use crate::bus::{Action, ActionView, SpiTranscript, TranscriptView};
use crate::error::Error;
use crate::pec15::PEC15;
use crate::polling::PollMethod;
use crate::registers::{Page, RegAddressP0, RegControlRegister};

verus! {

/// The register link to one LTC2949.
pub struct Link<E, P> {
    bus: SpiTranscript<E>,
    poll_method: P,
    /// Tracks the currently selected page so `select_page` is a no-op when redundant.
    current_page: Option<Page>,
}

/// Mathematical view of a [`Link`], and what each operation does to it.
///
/// An operation is a function from the link before it to its result and the link after it.
#[verifier::ext_equal]
pub struct LinkView<E> {
    /// The page that the device is known to be on.
    pub page: Option<Page>,
    /// The actions that end a synchronous command.
    pub end: Seq<ActionView>,
    /// The traffic.
    pub bus: TranscriptView<E>,
}

/// The address of the register control register, which is the same on both pages.
pub const REGSCTRL: u8 = 0xFF;

/// The register control byte that selects `page`: RDCVCONF = 1, BCREN = 0, MLK = 00.
pub open spec fn page_byte(page: Page) -> u8 {
    match page {
        Page::Page0 => 0x80,
        Page::Page1 => 0x81,
    }
}

/// The register control byte that selects `page` and requests the memory lock (MLK = 01).
pub open spec fn lock_byte(page: Page) -> u8 {
    match page {
        Page::Page0 => 0x90,
        Page::Page1 => 0x91,
    }
}

/// The page that register control commands keep when `page` is the known one.
pub open spec fn kept_page(page: Option<Page>) -> Page {
    match page {
        Some(known) => known,
        None => Page::Page0,
    }
}

/// The action that writes `data` to the registers from `addr` on.
pub open spec fn write_action(addr: u8, data: Seq<u8>) -> ActionView {
    ActionView::Write(crate::dcmd::write_frame(addr, data))
}

/// The action that reads `n` bytes from the registers from `addr` on.
pub open spec fn read_action(addr: u8, n: nat) -> ActionView {
    ActionView::Transfer(crate::dcmd::read_frame(addr, n))
}

/// The action that makes an edge on the bus to wake a port.
pub open spec fn wake_action() -> ActionView {
    ActionView::Write(seq![0x00u8])
}

/// Whether a result shows the outcome `outcome` of the model.
pub open spec fn yields<T: View, E>(result: Result<T, Error<E>>, outcome: Result<T::V, Error<E>>) -> bool {
    match result {
        Ok(value) => outcome == Ok::<T::V, Error<E>>(value@),
        Err(error) => outcome == Err::<T::V, Error<E>>(error),
    }
}

/// A result that holds a machine integer, with the integer itself.
pub open spec fn number<T: Integer, E>(result: Result<T, Error<E>>) -> Result<int, Error<E>> {
    match result {
        Ok(value) => Ok(value as int),
        Err(error) => Err(error),
    }
}

impl<E> LinkView<E> {
    /// Asks for the actions of `plan`, in order.
    pub open spec fn perform(self, plan: Seq<ActionView>) -> (Result<(), Error<E>>, Self) {
        (self.bus.verdict(plan), LinkView { bus: self.bus.asked(plan), ..self })
    }

    /// Asks for `action` as a synchronous command.
    pub open spec fn command(self, action: ActionView) -> (Result<(), Error<E>>, Self) {
        self.perform(seq![action] + self.end)
    }

    /// Writes `data` to the registers from `addr` on, on the page the device is on.
    pub open spec fn dcmd_write(self, addr: u8, data: Seq<u8>) -> (Result<(), Error<E>>, Self) {
        self.command(write_action(addr, data))
    }

    /// Reads `n` bytes from the registers from `addr` on, on the page the device is on.
    ///
    /// A reply whose PEC does not match its data is refused. It can mean that the device has
    /// reset, so the page is no longer known then, and the command is not ended.
    pub open spec fn dcmd_read(self, addr: u8, n: nat) -> (Result<Seq<u8>, Error<E>>, Self) {
        let asked = self.perform(seq![read_action(addr, n)]);
        let data = crate::dcmd::reply_data(self.bus.next_reply(), n);
        match asked.0 {
            Err(error) => (Err(error), asked.1),
            Ok(_) => if crate::pec15::pec(data) != crate::dcmd::reply_pec(self.bus.next_reply(), n) {
                (Err(Error::ChecksumMismatch), LinkView { page: None, ..asked.1 })
            } else {
                match asked.1.perform(self.end) {
                    (Err(error), ended) => (Err(error), ended),
                    (Ok(_), ended) => (Ok(data), ended),
                }
            },
        }
    }

    /// Sends a 16-bit command to everything on the bus.
    pub open spec fn send_cmd16(self, cmd: u16) -> (Result<(), Error<E>>, Self) {
        self.command(ActionView::Write(crate::dcmd::cmd16_frame(cmd)))
    }

    /// Brings the device onto `page`, unless it is known to be there.
    pub open spec fn select_page(self, page: Page) -> (Result<(), Error<E>>, Self) {
        if self.page == Some(page) {
            (Ok(()), self)
        } else {
            match self.dcmd_write(REGSCTRL, seq![page_byte(page)]) {
                (Err(error), failed) => (Err(error), failed),
                (Ok(_), selected) => (Ok(()), LinkView { page: Some(page), ..selected }),
            }
        }
    }

    /// Writes `data` to the registers of `page` from `addr` on. A write of the register
    /// control register goes out on whichever page the device is on.
    pub open spec fn write_register(self, page: Page, addr: u8, data: Seq<u8>) -> (Result<(), Error<E>>, Self) {
        if addr == REGSCTRL {
            self.dcmd_write(addr, data)
        } else {
            match self.select_page(page) {
                (Err(error), failed) => (Err(error), failed),
                (Ok(_), selected) => selected.dcmd_write(addr, data),
            }
        }
    }

    /// Writes `first` to the registers of `page` from `first_addr` on and then, if that
    /// succeeds, `second` to those from `second_addr` on.
    pub open spec fn write_two_registers(
        self,
        page: Page,
        first_addr: u8,
        first: Seq<u8>,
        second_addr: u8,
        second: Seq<u8>,
    ) -> (Result<(), Error<E>>, Self) {
        match self.write_register(page, first_addr, first) {
            (Err(error), failed) => (Err(error), failed),
            (Ok(_), written) => written.write_register(page, second_addr, second),
        }
    }

    /// Reads `n` bytes from the registers of `page` from `addr` on.
    pub open spec fn read_register(self, page: Page, addr: u8, n: nat) -> (Result<Seq<u8>, Error<E>>, Self) {
        match self.select_page(page) {
            (Err(error), failed) => (Err(error), failed),
            (Ok(_), selected) => selected.dcmd_read(addr, n),
        }
    }

    /// Starts to wake the core: the page is forgotten, and two edges go out.
    pub open spec fn start_wake_up(self) -> (Result<(), Error<E>>, Self) {
        (LinkView { page: None, ..self }).perform(seq![wake_action(), wake_action()])
    }

    /// Wakes the port alone: one edge goes out.
    pub open spec fn wake_port(self) -> (Result<(), Error<E>>, Self) {
        self.perform(seq![wake_action()])
    }

    /// Requests the memory lock without leaving the page, which is known from then on.
    pub open spec fn request_memory_lock(self) -> (Result<(), Error<E>>, Self) {
        match self.dcmd_write(REGSCTRL, seq![lock_byte(kept_page(self.page))]) {
            (Err(error), failed) => (Err(error), failed),
            (Ok(_), locked) => (Ok(()), LinkView { page: Some(kept_page(self.page)), ..locked }),
        }
    }

    /// Releases the memory lock without leaving the page.
    pub open spec fn unlock_memory(self) -> (Result<(), Error<E>>, Self) {
        self.dcmd_write(REGSCTRL, seq![page_byte(kept_page(self.page))])
    }
}

impl<E, P: PollMethod<E>> View for Link<E, P> {
    type V = LinkView<E>;

    closed spec fn view(&self) -> LinkView<E> {
        LinkView { page: self.current_page, end: self.poll_method.end_actions(), bus: self.bus@ }
    }
}

impl<E, P: PollMethod<E>> Link<E, P> {
    /// A link over `bus` that knows nothing of the page that the device is on.
    pub fn new(bus: SpiTranscript<E>, poll_method: P) -> (link: Self)
        ensures
            link@ == (LinkView { page: None, end: poll_method.end_actions(), bus: bus@ }),
    {
        Link { bus, poll_method, current_page: None }
    }

    /// The page that the device is known to be on.
    pub fn current_page(&self) -> (page: Option<Page>)
        ensures
            page == self@.page,
    {
        self.current_page
    }

    /// The traffic.
    pub fn bus(&self) -> (bus: &SpiTranscript<E>)
        ensures
            bus@ == self@.bus,
    {
        &self.bus
    }

    /// Puts back the page that was known before an operation, and rewinds the traffic so
    /// that the operation can run again with more replies.
    pub fn rewind(&mut self, page: Option<Page>)
        ensures
            final(self)@ == (LinkView {
                page,
                bus: TranscriptView { sent: Seq::empty(), ..old(self)@.bus },
                ..old(self)@
            }),
    {
        self.current_page = page;
        self.bus.rewind();
    }

    /// Forgets the traffic of a finished operation and keeps the page.
    pub fn clear(&mut self)
        ensures
            final(self)@ == (LinkView { bus: TranscriptView::<E>::empty(), ..old(self)@ }),
    {
        self.bus = SpiTranscript::new();
    }

    /// Enters the reply to the action that is waited for.
    pub fn answer(&mut self, reply: Vec<u8>)
        ensures
            final(self)@ == (LinkView {
                bus: TranscriptView { replies: old(self)@.bus.replies.push(reply@), ..old(self)@.bus },
                ..old(self)@
            }),
    {
        self.bus.answer(reply);
    }

    /// Enters the error that ended the action that is waited for.
    pub fn fail(&mut self, error: E)
        ensures
            final(self)@ == (LinkView {
                bus: TranscriptView { failure: Some(error), ..old(self)@.bus },
                ..old(self)@
            }),
    {
        self.bus.fail(error);
    }

    fn ask(&mut self, action: Action) -> (reply: Result<Vec<u8>, Error<E>>)
        ensures
            final(self)@ == old(self)@.perform(seq![action@]).1,
            match reply {
                Ok(bytes) => old(self)@.bus.covers(1) && bytes@ == old(self)@.bus.next_reply(),
                Err(error) => old(self)@.perform(seq![action@]).0 == Err::<(), Error<E>>(error),
            },
    {
        self.bus.ask(action)
    }

    fn end_command(&mut self) -> (result: Result<(), Error<E>>)
        ensures
            (result, final(self)@) == old(self)@.perform(old(self)@.end),
    {
        self.poll_method.end_sync_command(&mut self.bus)
    }

    fn command(&mut self, frame: Vec<u8>) -> (result: Result<(), Error<E>>)
        ensures
            (result, final(self)@) == old(self)@.command(ActionView::Write(frame@)),
    {
        let ghost action = ActionView::Write(frame@);
        proof {
            crate::bus::lemma_asked_in_order(self@.bus, seq![action], self@.end);
        }
        match self.ask(Action::Write(frame)) {
            Err(error) => Err(error),
            Ok(_) => self.end_command(),
        }
    }

    /// Makes an edge on the bus.
    fn wake_pulse(&mut self) -> (result: Result<(), Error<E>>)
        ensures
            (result, final(self)@) == old(self)@.wake_port(),
    {
        let mut dummy: Vec<u8> = Vec::new();
        dummy.push(0x00);
        proof {
            assert(dummy@ =~= seq![0x00u8]);
        }
        match self.ask(Action::Write(dummy)) {
            Err(error) => Err(error),
            Ok(_) => Ok(()),
        }
    }

    /// Makes one edge on the bus, which wakes the port and leaves the core alone.
    pub fn wake_port(&mut self) -> (result: Result<(), Error<E>>)
        ensures
            (result, final(self)@) == old(self)@.wake_port(),
    {
        self.wake_pulse()
    }

    /// Makes two edges on the bus, and forgets the page: a device that wakes up has lost its
    /// page selection.
    pub fn start_wake_up(&mut self) -> (result: Result<(), Error<E>>)
        ensures
            (result, final(self)@) == old(self)@.start_wake_up(),
    {
        self.current_page = None;
        proof {
            crate::bus::lemma_asked_in_order(self@.bus, seq![wake_action()], seq![wake_action()]);
            assert(seq![wake_action()] + seq![wake_action()] =~= seq![wake_action(), wake_action()]);
        }
        match self.wake_pulse() {
            Err(error) => Err(error),
            Ok(_) => self.wake_pulse(),
        }
    }

    /// Sends a DCMD write transaction. `data` is one PEC group of at least one byte.
    pub fn dcmd_write(&mut self, addr: u8, data: &[u8]) -> (result: Result<(), Error<E>>)
        requires
            1 <= data@.len() <= crate::dcmd::N_PER_PEC,
        ensures
            (result, final(self)@) == old(self)@.dcmd_write(addr, data@),
    {
        self.write_group(addr, data)
    }

    /// Sends a DCMD write transaction. `data` fits one PEC group and may be empty.
    pub(crate) fn write_group(&mut self, addr: u8, data: &[u8]) -> (result: Result<(), Error<E>>)
        requires
            data@.len() <= crate::dcmd::N_PER_PEC,
        ensures
            (result, final(self)@) == old(self)@.dcmd_write(addr, data@),
    {
        self.command(crate::dcmd::build_write_group(addr, data))
    }

    /// Direct `DCMD` read of one PEC group of at least one byte.
    pub fn dcmd_read(&mut self, addr: u8, n: usize) -> (result: Result<Vec<u8>, Error<E>>)
        requires
            1 <= n <= crate::dcmd::N_PER_PEC,
        ensures
            final(self)@ == old(self)@.dcmd_read(addr, n as nat).1,
            yields(result, old(self)@.dcmd_read(addr, n as nat).0),
            result matches Ok(data) ==> data@.len() == n,
    {
        self.read_group(addr, n)
    }

    /// Direct `DCMD` read: data appears on MISO after the 5-byte header, then the PEC. The `n`
    /// bytes fit one PEC group and may be none.
    pub(crate) fn read_group(&mut self, addr: u8, n: usize) -> (result: Result<Vec<u8>, Error<E>>)
        requires
            n <= crate::dcmd::N_PER_PEC,
        ensures
            final(self)@ == old(self)@.dcmd_read(addr, n as nat).1,
            yields(result, old(self)@.dcmd_read(addr, n as nat).0),
            result matches Ok(data) ==> data@.len() == n,
    {
        let reply = match self.ask(Action::Transfer(crate::dcmd::build_read_group(addr, n))) {
            Err(error) => {
                return Err(error);
            },
            Ok(reply) => reply,
        };
        let data = crate::dcmd::take_received(&reply, crate::dcmd::HEADER_LEN, n);
        let check = crate::dcmd::take_received(&reply, crate::dcmd::HEADER_LEN + n, 2);
        let pec = PEC15::calc(data.as_slice());
        let matching = pec[0] == check[0] && pec[1] == check[1];
        proof {
            assert(matching <==> pec@ =~= check@);
        }
        if !matching {
            self.current_page = None;
            return Err(Error::ChecksumMismatch);
        }
        match self.end_command() {
            Err(error) => Err(error),
            Ok(_) => Ok(data),
        }
    }

    /// Sends a 16-bit command to everything on the bus.
    pub fn send_cmd16(&mut self, cmd: u16) -> (result: Result<(), Error<E>>)
        ensures
            (result, final(self)@) == old(self)@.send_cmd16(cmd),
    {
        self.command(crate::dcmd::build_cmd16(cmd))
    }

    /// Selects `page`, unless it is the one that is selected.
    pub fn select_page(&mut self, page: Page) -> (result: Result<(), Error<E>>)
        ensures
            (result, final(self)@) == old(self)@.select_page(page),
    {
        if let Some(known) = self.current_page {
            if known == page {
                return Ok(());
            }
        }
        let value = regsctrl(page);
        match self.dcmd_write(RegAddressP0::RegsCtrl.addr(), &value.into_bytes()) {
            Err(error) => Err(error),
            Ok(_) => {
                self.current_page = Some(page);
                Ok(())
            },
        }
    }

    /// Writes `data` to the registers of `page` from `addr` on.
    pub fn write_register(&mut self, page: Page, addr: u8, data: &[u8]) -> (result: Result<(), Error<E>>)
        requires
            1 <= data@.len() <= crate::dcmd::N_PER_PEC,
        ensures
            (result, final(self)@) == old(self)@.write_register(page, addr, data@),
    {
        // REGSCTRL writes are themselves the page-switch mechanism.
        if addr != REGSCTRL {
            match self.select_page(page) {
                Err(error) => {
                    return Err(error);
                },
                Ok(_) => {},
            }
        }
        self.dcmd_write(addr, data)
    }

    /// Writes `first` and then, if that succeeds, `second`.
    pub fn write_two_registers(
        &mut self,
        page: Page,
        first_addr: u8,
        first: &[u8],
        second_addr: u8,
        second: &[u8],
    ) -> (result: Result<(), Error<E>>)
        requires
            1 <= first@.len() <= crate::dcmd::N_PER_PEC,
            1 <= second@.len() <= crate::dcmd::N_PER_PEC,
        ensures
            (result, final(self)@) == old(self)@.write_two_registers(page, first_addr, first@, second_addr, second@),
    {
        match self.write_register(page, first_addr, first) {
            Err(error) => Err(error),
            Ok(_) => self.write_register(page, second_addr, second),
        }
    }

    /// Reads `n` bytes from the registers of `page` from `addr` on.
    pub fn read_register(&mut self, page: Page, addr: u8, n: usize) -> (result: Result<Vec<u8>, Error<E>>)
        requires
            1 <= n <= crate::dcmd::N_PER_PEC,
        ensures
            final(self)@ == old(self)@.read_register(page, addr, n as nat).1,
            yields(result, old(self)@.read_register(page, addr, n as nat).0),
            result matches Ok(data) ==> data@.len() == n,
    {
        match self.select_page(page) {
            Err(error) => Err(error),
            Ok(_) => self.dcmd_read(addr, n),
        }
    }

    /// Requests the memory lock (`MLK = 0b01`) on the page that is selected.
    pub fn request_memory_lock(&mut self) -> (result: Result<(), Error<E>>)
        ensures
            (result, final(self)@) == old(self)@.request_memory_lock(),
    {
        let page = self.page_or_default();
        let base = regsctrl(page);
        let value = base.with_mlk(0b01);
        proof {
            assert(crate::registers::with_lock_field(0x80, 1) == 0x90 && crate::registers::with_lock_field(0x81, 1) == 0x91)
                by (bit_vector);
        }
        match self.dcmd_write(RegAddressP0::RegsCtrl.addr(), &value.into_bytes()) {
            Err(error) => Err(error),
            Ok(_) => {
                // The lock request also pins the page. Recording it makes same-page reads
                // inside the lock skip REGSCTRL, whose rewrite would release the lock.
                self.current_page = Some(page);
                Ok(())
            },
        }
    }

    /// Releases the memory lock (`MLK = 0b00`) on the page that is selected.
    pub fn unlock_memory(&mut self) -> (result: Result<(), Error<E>>)
        ensures
            (result, final(self)@) == old(self)@.unlock_memory(),
    {
        let value = regsctrl(self.page_or_default());
        self.dcmd_write(RegAddressP0::RegsCtrl.addr(), &value.into_bytes())
    }

    fn page_or_default(&self) -> (page: Page)
        ensures
            page == kept_page(self@.page),
    {
        match self.current_page {
            Some(page) => page,
            None => Page::Page0,
        }
    }
}

/// REGSCTRL for `page` with RDCVCONF=1, BCREN=0, MLK=00.
fn regsctrl(page: Page) -> (value: RegControlRegister)
    ensures
        value@ == page_byte(page),
{
    let page1 = match page {
        Page::Page0 => false,
        Page::Page1 => true,
    };
    proof {
        assert(crate::registers::with_bit(crate::registers::with_bit(0u8, 7, true), 0, page1) == (if page1 {
            0x81u8
        } else {
            0x80u8
        })) by (bit_vector);
    }
    RegControlRegister::new().with_rdcvconf(true).with_page(page1)
}

} // verus!
