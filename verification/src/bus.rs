//! The SPI traffic between a client and the host that owns the bus.
//!
//! A client never touches the bus itself. It asks for one [`Action`] after the other and
//! finds the replies in a [`SpiTranscript`]; the host carries out each action and enters the
//! reply. An operation that runs into an action without a reply stops with
//! [`Error::Awaiting`]. The host then performs that action, enters its reply, rewinds the
//! client and calls the operation again, which gets one action further.
use vstd::prelude::*;

use crate::error::Error;

verus! {

/// One thing that the host has to do on the bus.
#[derive(Clone, Eq, PartialEq, Debug)]
pub enum Action {
    /// Clock out these bytes; what comes back is ignored.
    Write(Vec<u8>),
    /// Clock out these bytes and return the bytes received meanwhile.
    Transfer(Vec<u8>),
    /// Release a latched chip select.
    ReleaseCs,
}

/// Mathematical view of an [`Action`].
#[verifier::ext_equal]
pub enum ActionView {
    Write(Seq<u8>),
    Transfer(Seq<u8>),
    ReleaseCs,
}

impl View for Action {
    type V = ActionView;

    open spec fn view(&self) -> ActionView {
        match self {
            Action::Write(bytes) => ActionView::Write(bytes@),
            Action::Transfer(bytes) => ActionView::Transfer(bytes@),
            Action::ReleaseCs => ActionView::ReleaseCs,
        }
    }
}

/// What the client has asked for, and what the host has answered.
///
/// The reply with index `i` answers the action with index `i`. A failure, if there is one,
/// answers the first action that has no reply.
#[derive(Debug)]
pub struct SpiTranscript<E> {
    replies: Vec<Vec<u8>>,
    failure: Option<E>,
    sent: Vec<Action>,
}

/// Mathematical view of a [`SpiTranscript`].
#[verifier::ext_equal]
pub struct TranscriptView<E> {
    /// The bytes received in answer to each action; only those of a transfer are looked at.
    pub replies: Seq<Seq<u8>>,
    /// The bus error that answers the first action without a reply.
    pub failure: Option<E>,
    /// The actions asked for, oldest first.
    pub sent: Seq<ActionView>,
}

impl<E> TranscriptView<E> {
    /// The transcript before any traffic.
    pub open spec fn empty() -> Self {
        TranscriptView { replies: Seq::empty(), failure: None, sent: Seq::empty() }
    }

    /// Whether the replies cover `n` further actions.
    pub open spec fn covers(self, n: nat) -> bool {
        n == 0 || self.sent.len() + n <= self.replies.len()
    }

    /// How an action without a reply ends.
    pub open spec fn stop(self) -> Error<E> {
        match self.failure {
            Some(error) => Error::BusError(error),
            None => Error::Awaiting,
        }
    }

    /// How asking for all the actions of `plan`, in order, ends.
    pub open spec fn verdict(self, plan: Seq<ActionView>) -> Result<(), Error<E>> {
        if self.covers(plan.len()) {
            Ok(())
        } else {
            Err(self.stop())
        }
    }

    /// The transcript after asking for the actions of `plan`, in order, up to and including
    /// the first one without a reply.
    pub open spec fn asked(self, plan: Seq<ActionView>) -> Self {
        if self.covers(plan.len()) {
            TranscriptView { sent: self.sent + plan, ..self }
        } else if self.sent.len() < self.replies.len() {
            TranscriptView {
                sent: self.sent + plan.take(self.replies.len() - self.sent.len() + 1),
                failure: None,
                ..self
            }
        } else {
            TranscriptView { sent: self.sent + plan.take(1), failure: None, ..self }
        }
    }

    /// The bytes received in answer to the next action.
    pub open spec fn next_reply(self) -> Seq<u8> {
        self.replies[self.sent.len() as int]
    }

    /// The actions that have been answered by a reply.
    pub open spec fn acknowledged(self) -> Seq<ActionView> {
        if self.sent.len() <= self.replies.len() {
            self.sent
        } else {
            self.sent.take(self.replies.len() as int)
        }
    }
}

/// Asking for two plans in a row is asking for their concatenation.
pub proof fn lemma_asked_in_order<E>(bus: TranscriptView<E>, first: Seq<ActionView>, second: Seq<ActionView>)
    ensures
        bus.covers(first.len()) ==> {
            &&& bus.asked(first + second) == bus.asked(first).asked(second)
            &&& bus.verdict(first + second) == bus.asked(first).verdict(second)
        },
        !bus.covers(first.len()) ==> {
            &&& bus.asked(first + second) == bus.asked(first)
            &&& bus.verdict(first + second) == bus.verdict(first)
        },
{
    let both = first + second;
    let left = bus.replies.len() - bus.sent.len();
    if bus.covers(first.len()) {
        if second.len() == 0 {
            assert(both =~= first);
        }
        if first.len() == 0 {
            assert(both =~= second);
            assert(bus.sent + first =~= bus.sent);
        }
        if !bus.covers(both.len()) && first.len() > 0 && second.len() > 0 {
            assert(both.take(left + 1) =~= first + second.take(left - first.len() + 1));
        }
        assert(bus.asked(both) =~= bus.asked(first).asked(second));
    } else {
        if left > 0 {
            assert(both.take(left + 1) =~= first.take(left + 1));
        } else {
            assert(both.take(1) =~= first.take(1));
        }
    }
}

impl<E> View for SpiTranscript<E> {
    type V = TranscriptView<E>;

    closed spec fn view(&self) -> TranscriptView<E> {
        TranscriptView {
            replies: self.replies@.map_values(|reply: Vec<u8>| reply@),
            failure: self.failure,
            sent: self.sent@.map_values(|action: Action| action@),
        }
    }
}

impl<E> SpiTranscript<E> {
    /// Starts an empty transcript.
    pub fn new() -> (transcript: Self)
        ensures
            transcript@ == TranscriptView::<E>::empty(),
    {
        let transcript = SpiTranscript { replies: Vec::new(), failure: None, sent: Vec::new() };
        proof {
            assert(transcript@ =~= TranscriptView::<E>::empty());
        }
        transcript
    }

    /// Enters the bytes received in answer to the first action without a reply; for an
    /// action that receives nothing they are ignored.
    pub fn answer(&mut self, reply: Vec<u8>)
        ensures
            final(self)@ == (TranscriptView { replies: old(self)@.replies.push(reply@), ..old(self)@ }),
    {
        self.replies.push(reply);
        proof {
            assert(self@ =~= TranscriptView { replies: old(self)@.replies.push(reply@), ..old(self)@ });
        }
    }

    /// Enters the error that ended the first action without a reply.
    pub fn fail(&mut self, error: E)
        ensures
            final(self)@ == (TranscriptView { failure: Some(error), ..old(self)@ }),
    {
        self.failure = Some(error);
    }

    /// Forgets what was asked for, and keeps the answers for the next run.
    pub fn rewind(&mut self)
        ensures
            final(self)@ == (TranscriptView { sent: Seq::empty(), ..old(self)@ }),
    {
        self.sent = Vec::new();
        proof {
            assert(self@ =~= TranscriptView { sent: Seq::empty(), ..old(self)@ });
        }
    }

    /// The actions asked for, oldest first.
    pub fn sent(&self) -> (actions: &Vec<Action>)
        ensures
            actions@.map_values(|action: Action| action@) == self@.sent,
    {
        &self.sent
    }

    /// The first action without a reply, if one has been asked for.
    pub fn awaiting(&self) -> (action: Option<&Action>)
        ensures
            action is Some <==> self@.sent.len() > self@.replies.len(),
            action matches Some(a) ==> a@ == self@.sent[self@.replies.len() as int],
    {
        let next = self.replies.len();
        if next < self.sent.len() {
            Some(&self.sent[next])
        } else {
            None
        }
    }

    /// Asks for one action and returns the bytes received in answer to it.
    pub fn ask(&mut self, action: Action) -> (reply: Result<Vec<u8>, Error<E>>)
        ensures
            final(self)@ == old(self)@.asked(seq![action@]),
            match reply {
                Ok(bytes) => old(self)@.covers(1) && bytes@ == old(self)@.next_reply(),
                Err(error) => !old(self)@.covers(1) && error == old(self)@.stop(),
            },
    {
        let index = self.sent.len();
        self.sent.push(action);
        proof {
            assert(self@.sent =~= old(self)@.sent + seq![action@]);
            assert(seq![action@].take(1) =~= seq![action@]);
        }
        if index < self.replies.len() {
            Ok(self.replies[index].clone())
        } else {
            match self.failure.take() {
                Some(error) => Err(Error::BusError(error)),
                None => Err(Error::Awaiting),
            }
        }
    }
}

} // verus!
