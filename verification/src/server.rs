//! The dispatcher of a server: what to do with a datagram that reaches the
//! well-known port.

use vstd::prelude::*;
use crate::protocol::{Message, MessageView, Mode};
use crate::session::{Action, ActionView, PeerAddr, Role, SessionView, TransferSession};

verus! {

/// What the listener does with one datagram.
#[derive(Debug)]
pub enum Dispatch {
    /// The bytes are no message: drop them.
    Malformed,
    /// A message that cannot open a transfer: drop it with a warning.
    NotARequest,
    /// A request: run `session` on a fresh local endpoint against the file
    /// `filename`, beginning with `first`.
    Start { filename: String, session: TransferSession, first: Action },
}

/// The mathematical content of a [`Dispatch`].
pub enum DispatchView {
    Malformed,
    NotARequest,
    Start { filename: Seq<char>, session: SessionView, first: ActionView },
}

impl View for Dispatch {
    type V = DispatchView;

    open spec fn view(&self) -> DispatchView {
        match *self {
            Dispatch::Malformed => DispatchView::Malformed,
            Dispatch::NotARequest => DispatchView::NotARequest,
            Dispatch::Start { filename, session, first } => DispatchView::Start {
                filename: filename@,
                session: session@,
                first: first@,
            },
        }
    }
}

/// The session that serves a request of `role` from `peer`, with its file.
pub open spec fn start(
    role: Role,
    filename: Seq<char>,
    mode: Mode,
    peer: PeerAddr,
    retry_limit: u32,
) -> DispatchView {
    DispatchView::Start {
        filename,
        session: SessionView::serving(role, mode, peer, retry_limit),
        first: SessionView::first_action(role),
    }
}

/// A read request is served by a sender and a write request by a receiver;
/// no other message opens a transfer.
pub open spec fn handle_transfer_spec(
    message: MessageView,
    remote_addr: PeerAddr,
    retry_limit: u32,
) -> DispatchView {
    match message {
        MessageView::Read { filename, mode } => start(
            Role::Sending,
            filename,
            mode,
            remote_addr,
            retry_limit,
        ),
        MessageView::Write { filename, mode } => start(
            Role::Receiving,
            filename,
            mode,
            remote_addr,
            retry_limit,
        ),
        _ => DispatchView::NotARequest,
    }
}

/// What the listener does with the bytes of one datagram.
pub open spec fn dispatch_spec(datagram: Seq<u8>, from: PeerAddr, retry_limit: u32) -> DispatchView {
    match MessageView::decode(datagram) {
        None => DispatchView::Malformed,
        Some(message) => handle_transfer_spec(message, from, retry_limit),
    }
}

/// Opens the session that serves a read request of `peer`: this side sends.
pub fn read_request(mode: Mode, peer: PeerAddr, retry_limit: u32) -> (r: (TransferSession, Action))
    ensures
        r.0@ == SessionView::serving(Role::Sending, mode, peer, retry_limit),
        r.0@.wf(),
        r.1@ == SessionView::first_action(Role::Sending),
{
    TransferSession::serve(Role::Sending, mode, peer, retry_limit)
}

/// Opens the session that serves a write request of `peer`: this side
/// receives.
pub fn write_request(mode: Mode, peer: PeerAddr, retry_limit: u32) -> (r: (
    TransferSession,
    Action,
))
    ensures
        r.0@ == SessionView::serving(Role::Receiving, mode, peer, retry_limit),
        r.0@.wf(),
        r.1@ == SessionView::first_action(Role::Receiving),
{
    TransferSession::serve(Role::Receiving, mode, peer, retry_limit)
}

/// Decides what a message that reached the well-known port leads to.
pub fn handle_transfer(message: Message, remote_addr: PeerAddr, retry_limit: u32) -> (r: Dispatch)
    ensures
        r@ == handle_transfer_spec(message@, remote_addr, retry_limit),
{
    match message {
        Message::Read { filename, mode } => {
            let (session, first) = read_request(mode, remote_addr, retry_limit);
            Dispatch::Start { filename, session, first }
        },
        Message::Write { filename, mode } => {
            let (session, first) = write_request(mode, remote_addr, retry_limit);
            Dispatch::Start { filename, session, first }
        },
        _ => Dispatch::NotARequest,
    }
}

/// Decides what a datagram that reached the well-known port leads to. The
/// listener never fails on it: bytes that are no message are `Malformed`.
pub fn dispatch(datagram: &[u8], from: PeerAddr, retry_limit: u32) -> (r: Dispatch)
    ensures
        r@ == dispatch_spec(datagram@, from, retry_limit),
{
    match Message::decode(datagram) {
        Err(_) => Dispatch::Malformed,
        Ok(message) => handle_transfer(message, from, retry_limit),
    }
}

} // verus!
