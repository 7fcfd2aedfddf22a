//! The driver of a client: the request that opens a transfer and the
//! session that waits for its first reply.

use vstd::prelude::*;
use crate::protocol::{Message, MessageView, Mode};
use crate::session::{Role, SessionView, TransferSession};

verus! {

/// Opens a read of `filename`: the request to send to the server's
/// well-known port, and the session that receives the file from whoever
/// replies first.
pub fn handle_read(filename: String, mode: Mode, retry_limit: u32) -> (r: (
    TransferSession,
    Vec<u8>,
))
    ensures
        r.0@ == SessionView::requesting(Role::Receiving, mode, retry_limit),
        r.0@.wf(),
        r.1@ == (MessageView::Read { filename: filename@, mode }).encode(),
{
    let request = Message::Read { filename, mode };
    (TransferSession::request(Role::Receiving, mode, retry_limit), request.encode())
}

/// Opens a write of `filename`: the request to send to the server's
/// well-known port, and the session that sends the file to whoever replies
/// first.
pub fn handle_write(filename: String, mode: Mode, retry_limit: u32) -> (r: (
    TransferSession,
    Vec<u8>,
))
    ensures
        r.0@ == SessionView::requesting(Role::Sending, mode, retry_limit),
        r.0@.wf(),
        r.1@ == (MessageView::Write { filename: filename@, mode }).encode(),
{
    let request = Message::Write { filename, mode };
    (TransferSession::request(Role::Sending, mode, retry_limit), request.encode())
}

} // verus!
