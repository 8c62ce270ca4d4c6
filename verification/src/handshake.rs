//! The setup exchange as a machine of states: what to do next, given what
//! happened last. The caller does the reading, the writing and the waiting.

use crate::auth::{spec_entries, XAuthEntry};
use crate::byteorder::ByteOrder;
use crate::connection::{
    lemma_serialize_aligned, spec_conn_setup, spec_parse_into, spec_request, spec_serialize,
};
use crate::errors::ConnectionError;
use crate::protocol::{ConnSetup, ConnSetupRequest, ConnSetupView};
use vstd::prelude::*;

verus! {

/// The number of bytes that the buffer for the server's reply holds.
pub const RESPONSE_CAPACITY: usize = 1000;

/// The time to wait, in milliseconds, before a read that would have
/// blocked is tried again.
pub const RETRY_INTERVAL_MS: u64 = 1000;

/// How far the exchange has come.
#[derive(Clone, Copy, Debug, PartialEq, Eq, Structural)]
pub enum HandshakeState {
    /// Nothing has happened yet.
    Idle,
    /// The credentials are read and the request is being written.
    AuthParsed,
    /// The whole request is written.
    RequestSent,
    /// The reply is being awaited.
    AwaitingResponse,
    /// The server has accepted the connection.
    ResponseDecoded,
    /// The exchange has failed.
    Failed,
}

/// Why the exchange failed.
#[derive(Clone, Copy, Debug, PartialEq, Eq, Structural)]
pub enum HandshakeError {
    /// No authority file could be had.
    CredentialSourceMissing,
    /// The authority file holds no record.
    NoCredentials,
    /// The transport failed to write.
    WriteFailed,
    /// The transport failed to read, other than by having nothing yet.
    ReadFailed,
    /// The server's reply is no acceptance.
    Connection(ConnectionError),
    /// Something happened that cannot happen in the state of the exchange.
    OutOfTurn,
}

/// What happened last.
#[derive(Debug)]
pub enum HandshakeEvent {
    /// The exchange is to begin.
    Started,
    /// The authority file was read and holds these bytes.
    Credentials(Vec<u8>),
    /// No authority file could be read.
    CredentialsMissing,
    /// The transport took this many bytes of what was to be written.
    Written(usize),
    /// The transport failed to write.
    WriteFailed,
    /// The transport was asked not to block.
    NonBlocking,
    /// The transport filled the buffer for the reply, which holds these bytes.
    Received(Vec<u8>),
    /// The transport has nothing to read yet.
    WouldBlock,
    /// The time to wait is over.
    Woke,
    /// The transport failed to read.
    ReadFailed,
}

/// What an [`HandshakeEvent`] holds.
pub ghost enum HandshakeEventView {
    Started,
    Credentials(Seq<u8>),
    CredentialsMissing,
    Written(usize),
    WriteFailed,
    NonBlocking,
    Received(Seq<u8>),
    WouldBlock,
    Woke,
    ReadFailed,
}

impl View for HandshakeEvent {
    type V = HandshakeEventView;

    open spec fn view(&self) -> HandshakeEventView {
        match self {
            HandshakeEvent::Started => HandshakeEventView::Started,
            HandshakeEvent::Credentials(bytes) => HandshakeEventView::Credentials(bytes@),
            HandshakeEvent::CredentialsMissing => HandshakeEventView::CredentialsMissing,
            HandshakeEvent::Written(n) => HandshakeEventView::Written(*n),
            HandshakeEvent::WriteFailed => HandshakeEventView::WriteFailed,
            HandshakeEvent::NonBlocking => HandshakeEventView::NonBlocking,
            HandshakeEvent::Received(bytes) => HandshakeEventView::Received(bytes@),
            HandshakeEvent::WouldBlock => HandshakeEventView::WouldBlock,
            HandshakeEvent::Woke => HandshakeEventView::Woke,
            HandshakeEvent::ReadFailed => HandshakeEventView::ReadFailed,
        }
    }
}

/// What to do next.
#[derive(Debug)]
pub enum HandshakeAction {
    /// Read the authority file.
    LoadCredentials,
    /// Write the part of the request that is still pending.
    Write,
    /// Ask the transport not to block.
    SetNonBlocking,
    /// Read the reply into a buffer of this many bytes.
    Read(usize),
    /// Wait this many milliseconds.
    Sleep(u64),
    /// The connection is set up: this is what the server says of itself.
    Finish(ConnSetup),
    /// The exchange has failed.
    Abort(HandshakeError),
}

/// What an [`HandshakeAction`] holds.
pub ghost enum HandshakeActionView {
    LoadCredentials,
    Write,
    SetNonBlocking,
    Read(usize),
    Sleep(u64),
    Finish(ConnSetupView),
    Abort(HandshakeError),
}

impl View for HandshakeAction {
    type V = HandshakeActionView;

    open spec fn view(&self) -> HandshakeActionView {
        match self {
            HandshakeAction::LoadCredentials => HandshakeActionView::LoadCredentials,
            HandshakeAction::Write => HandshakeActionView::Write,
            HandshakeAction::SetNonBlocking => HandshakeActionView::SetNonBlocking,
            HandshakeAction::Read(capacity) => HandshakeActionView::Read(*capacity),
            HandshakeAction::Sleep(millis) => HandshakeActionView::Sleep(*millis),
            HandshakeAction::Finish(setup) => HandshakeActionView::Finish(setup@),
            HandshakeAction::Abort(e) => HandshakeActionView::Abort(*e),
        }
    }
}

/// The exchange: its state, the byte order of its multi-byte fields, the
/// bytes of the request and how many of them are written.
#[derive(Debug)]
pub struct Handshake {
    pub state: HandshakeState,
    pub order: ByteOrder,
    pub payload: Vec<u8>,
    pub written: usize,
}

/// What a [`Handshake`] holds.
pub ghost struct HandshakeView {
    pub state: HandshakeState,
    pub order: ByteOrder,
    pub payload: Seq<u8>,
    pub written: nat,
}

impl View for Handshake {
    type V = HandshakeView;

    open spec fn view(&self) -> HandshakeView {
        HandshakeView {
            state: self.state,
            order: self.order,
            payload: self.payload@,
            written: self.written as nat,
        }
    }
}

impl HandshakeView {
    /// This exchange in another state.
    pub open spec fn at(self, state: HandshakeState) -> HandshakeView {
        HandshakeView { state, ..self }
    }

    /// The part of the request that is not written yet.
    pub open spec fn pending(self) -> Seq<u8> {
        if self.written <= self.payload.len() {
            self.payload.skip(self.written as int)
        } else {
            Seq::empty()
        }
    }

    /// No more is written than the request holds, and while the request is
    /// being written some of it is pending.
    pub open spec fn wf(self) -> bool {
        &&& self.written <= self.payload.len()
        &&& self.state == HandshakeState::AuthParsed ==> self.written < self.payload.len()
    }
}

/// The next state and what to do, given the state and what happened.
///
/// At the start the credentials are to be read. Of the records read the
/// first makes the request, which is written until all of it is taken;
/// no record at all ends the exchange. Then the transport is asked not to
/// block and the reply is read; a read that has nothing yet is tried again
/// after a wait. The reply that comes decides: an acceptance that decodes
/// ends the exchange well, anything else ends it as the failure that the
/// reply stands for. A failure of the transport ends the exchange, and so
/// does an event that does not belong to the state. An exchange that has
/// ended stays as it ended, whatever happens.
pub open spec fn spec_step(h: HandshakeView, event: HandshakeEventView) -> (
    HandshakeView,
    HandshakeActionView,
) {
    let failed = h.at(HandshakeState::Failed);
    match (h.state, event) {
        (HandshakeState::Idle, HandshakeEventView::Started) => (
            h,
            HandshakeActionView::LoadCredentials,
        ),
        (HandshakeState::Idle, HandshakeEventView::CredentialsMissing) => (
            failed,
            HandshakeActionView::Abort(HandshakeError::CredentialSourceMissing),
        ),
        (HandshakeState::Idle, HandshakeEventView::Credentials(bytes)) => {
            let entries = spec_entries(bytes);
            if entries.len() == 0 {
                (failed, HandshakeActionView::Abort(HandshakeError::NoCredentials))
            } else {
                (
                    HandshakeView {
                        state: HandshakeState::AuthParsed,
                        order: h.order,
                        payload: spec_serialize(spec_request(entries[0], h.order), h.order),
                        written: 0,
                    },
                    HandshakeActionView::Write,
                )
            }
        },
        (HandshakeState::AuthParsed, HandshakeEventView::Written(n)) => {
            if n >= h.pending().len() {
                (
                    HandshakeView {
                        state: HandshakeState::RequestSent,
                        written: h.payload.len(),
                        ..h
                    },
                    HandshakeActionView::SetNonBlocking,
                )
            } else {
                (
                    HandshakeView { written: (h.written + n) as nat, ..h },
                    HandshakeActionView::Write,
                )
            }
        },
        (HandshakeState::AuthParsed, HandshakeEventView::WriteFailed) => (
            failed,
            HandshakeActionView::Abort(HandshakeError::WriteFailed),
        ),
        (HandshakeState::RequestSent, HandshakeEventView::NonBlocking) => (
            h.at(HandshakeState::AwaitingResponse),
            HandshakeActionView::Read(RESPONSE_CAPACITY),
        ),
        (HandshakeState::AwaitingResponse, HandshakeEventView::WouldBlock) => (
            h,
            HandshakeActionView::Sleep(RETRY_INTERVAL_MS),
        ),
        (HandshakeState::AwaitingResponse, HandshakeEventView::Woke) => (
            h,
            HandshakeActionView::Read(RESPONSE_CAPACITY),
        ),
        (HandshakeState::AwaitingResponse, HandshakeEventView::ReadFailed) => (
            failed,
            HandshakeActionView::Abort(HandshakeError::ReadFailed),
        ),
        (HandshakeState::AwaitingResponse, HandshakeEventView::Received(bytes)) => {
            match spec_parse_into(bytes, h.order) {
                Ok(setup) => (
                    h.at(HandshakeState::ResponseDecoded),
                    HandshakeActionView::Finish(setup),
                ),
                Err(e) => (failed, HandshakeActionView::Abort(HandshakeError::Connection(e))),
            }
        },
        _ => (
            if h.state == HandshakeState::ResponseDecoded {
                h
            } else {
                failed
            },
            HandshakeActionView::Abort(HandshakeError::OutOfTurn),
        ),
    }
}

/// An exchange that has ended stays in the state in which it ended, and no
/// event makes it do anything more.
pub proof fn lemma_ended_stays_ended(h: HandshakeView, event: HandshakeEventView)
    requires
        h.state == HandshakeState::ResponseDecoded || h.state == HandshakeState::Failed,
    ensures
        spec_step(h, event).0 == h,
        spec_step(h, event).1 == HandshakeActionView::Abort(HandshakeError::OutOfTurn),
{
}

/// The exchange ends well only on a reply that starts with the status of
/// an acceptance and decodes, and then it hands out what the reply holds.
pub proof fn lemma_success_needs_acceptance(h: HandshakeView, event: HandshakeEventView)
    requires
        h.state != HandshakeState::ResponseDecoded,
        spec_step(h, event).0.state == HandshakeState::ResponseDecoded,
    ensures
        h.state == HandshakeState::AwaitingResponse,
        event is Received,
        event->Received_0.len() > 0 && event->Received_0[0] == 1,
        spec_conn_setup(event->Received_0, h.order) is Ok,
        spec_step(h, event).1 == HandshakeActionView::Finish(
            spec_conn_setup(event->Received_0, h.order)->Ok_0,
        ),
{
}

/// Nothing is read before the whole request is written: the exchange asks
/// for a read only while it awaits the reply, and it awaits the reply only
/// once nothing of the request is pending.
pub proof fn lemma_written_before_read(h: HandshakeView, event: HandshakeEventView)
    requires
        h.wf(),
        h.state == HandshakeState::AuthParsed,
        spec_step(h, event).0.state == HandshakeState::RequestSent,
    ensures
        spec_step(h, event).0.pending().len() == 0,
        spec_step(h, event).0.payload == h.payload,
        event is Written,
        event->Written_0 >= h.pending().len(),
{
}

impl Handshake {
    /// An exchange that has not begun, with multi-byte fields in `order`.
    pub fn new_with(order: ByteOrder) -> (h: Handshake)
        ensures
            h@ == (HandshakeView {
                state: HandshakeState::Idle,
                order,
                payload: Seq::empty(),
                written: 0,
            }),
            h@.wf(),
    {
        Handshake { state: HandshakeState::Idle, order, payload: Vec::new(), written: 0 }
    }

    /// An exchange that has not begun, with multi-byte fields in the byte
    /// order of the host.
    pub fn new() -> (h: Handshake)
        ensures
            h@.state == HandshakeState::Idle,
            h@.payload == Seq::<u8>::empty(),
            h@.written == 0,
            h@.wf(),
    {
        Self::new_with(ByteOrder::native())
    }

    /// The part of the request that is not written yet.
    pub fn pending(&self) -> (bytes: &[u8])
        ensures
            bytes@ == self@.pending(),
    {
        if self.written <= self.payload.len() {
            let (_, rest) = self.payload.as_slice().split_at(self.written);
            proof {
                assert(rest@ =~= self.payload@.skip(self.written as int));
            }
            rest
        } else {
            let (rest, _) = self.payload.as_slice().split_at(0);
            proof {
                assert(rest@ =~= Seq::<u8>::empty());
            }
            rest
        }
    }

    /// Takes in what happened, moves to the next state and says what to do.
    pub fn step(&mut self, event: HandshakeEvent) -> (action: HandshakeAction)
        ensures
            (final(self)@, action@) == spec_step(old(self)@, event@),
            old(self)@.wf() ==> final(self)@.wf(),
    {
        match (self.state, event) {
            (HandshakeState::Idle, HandshakeEvent::Started) => HandshakeAction::LoadCredentials,
            (HandshakeState::Idle, HandshakeEvent::CredentialsMissing) => {
                self.state = HandshakeState::Failed;
                HandshakeAction::Abort(HandshakeError::CredentialSourceMissing)
            },
            (HandshakeState::Idle, HandshakeEvent::Credentials(bytes)) => {
                let mut entries = XAuthEntry::parse(bytes.as_slice());
                if entries.len() == 0 {
                    self.state = HandshakeState::Failed;
                    return HandshakeAction::Abort(HandshakeError::NoCredentials);
                }
                let entry = entries.remove(0);
                let request = ConnSetupRequest::new_with(entry, self.order);
                self.payload = request.serialize_with(self.order);
                self.written = 0;
                self.state = HandshakeState::AuthParsed;
                proof {
                    lemma_serialize_aligned(request@, self.order);
                }
                HandshakeAction::Write
            },
            (HandshakeState::AuthParsed, HandshakeEvent::Written(n)) => {
                let len = self.payload.len();
                if self.written > len || n >= len - self.written {
                    self.written = len;
                    self.state = HandshakeState::RequestSent;
                    HandshakeAction::SetNonBlocking
                } else {
                    self.written = self.written + n;
                    HandshakeAction::Write
                }
            },
            (HandshakeState::AuthParsed, HandshakeEvent::WriteFailed) => {
                self.state = HandshakeState::Failed;
                HandshakeAction::Abort(HandshakeError::WriteFailed)
            },
            (HandshakeState::RequestSent, HandshakeEvent::NonBlocking) => {
                self.state = HandshakeState::AwaitingResponse;
                HandshakeAction::Read(RESPONSE_CAPACITY)
            },
            (HandshakeState::AwaitingResponse, HandshakeEvent::WouldBlock) => {
                HandshakeAction::Sleep(RETRY_INTERVAL_MS)
            },
            (HandshakeState::AwaitingResponse, HandshakeEvent::Woke) => {
                HandshakeAction::Read(RESPONSE_CAPACITY)
            },
            (HandshakeState::AwaitingResponse, HandshakeEvent::ReadFailed) => {
                self.state = HandshakeState::Failed;
                HandshakeAction::Abort(HandshakeError::ReadFailed)
            },
            (HandshakeState::AwaitingResponse, HandshakeEvent::Received(bytes)) => {
                match ConnSetup::parse_into_with(bytes.as_slice(), self.order) {
                    Ok(setup) => {
                        self.state = HandshakeState::ResponseDecoded;
                        HandshakeAction::Finish(setup)
                    },
                    Err(e) => {
                        self.state = HandshakeState::Failed;
                        HandshakeAction::Abort(HandshakeError::Connection(e))
                    },
                }
            },
            (HandshakeState::ResponseDecoded, _) => {
                HandshakeAction::Abort(HandshakeError::OutOfTurn)
            },
            _ => {
                self.state = HandshakeState::Failed;
                HandshakeAction::Abort(HandshakeError::OutOfTurn)
            },
        }
    }
}

} // verus!
