//! Polling policy used after LTC2949 SPI commands.
//!
//! Conversion timing is host-owned: operations with a mandatory wait return it. A
//! [`PollMethod`] covers a narrower concern, what has to happen on the bus at the end of a
//! synchronous command.
//!
//! * [`NoPolling`] is the default. The SPI device owns chip-select handling, and there is
//!   nothing left to do at the end of a command.
//! * [`SDOLinePolling`] is for an SPI device that keeps CS asserted across an operation; this
//!   policy releases CS when the command finishes.
use vstd::prelude::*;

use crate::bus::{Action, ActionView, SpiTranscript};
use crate::error::Error;

verus! {

/// End-of-command SPI policy.
pub trait PollMethod<E> {
    /// The actions that end a synchronous command.
    spec fn end_actions(&self) -> Seq<ActionView>;

    /// Called after synchronous commands so the selected SPI policy can finalize the
    /// transaction. This is separate from device conversion waits returned by high-level
    /// client methods.
    fn end_sync_command(&self, bus: &mut SpiTranscript<E>) -> (result: Result<(), Error<E>>)
        ensures
            final(bus)@ == old(bus)@.asked(self.end_actions()),
            result == old(bus)@.verdict(self.end_actions()),
    ;
}

/// Releases a latched chip select at the end of each synchronous command.
#[derive(Copy, Clone, Eq, PartialEq, Debug)]
pub struct SDOLinePolling {}

impl<E> PollMethod<E> for SDOLinePolling {
    open spec fn end_actions(&self) -> Seq<ActionView> {
        seq![ActionView::ReleaseCs]
    }

    fn end_sync_command(&self, bus: &mut SpiTranscript<E>) -> (result: Result<(), Error<E>>) {
        match bus.ask(Action::ReleaseCs) {
            Ok(_) => Ok(()),
            Err(error) => Err(error),
        }
    }
}

/// No extra end-of-command handling.
#[derive(Copy, Clone, Eq, PartialEq, Debug)]
pub struct NoPolling {}

impl<E> PollMethod<E> for NoPolling {
    open spec fn end_actions(&self) -> Seq<ActionView> {
        Seq::empty()
    }

    fn end_sync_command(&self, bus: &mut SpiTranscript<E>) -> (result: Result<(), Error<E>>) {
        proof {
            assert(bus@.sent + Seq::<ActionView>::empty() =~= bus@.sent);
        }
        Ok(())
    }
}

} // verus!
