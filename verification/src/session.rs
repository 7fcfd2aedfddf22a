//! The state machine of one transfer.
//!
//! A session owns every decision of a transfer: which block is current, what
//! counts as progress, when to send again and when to give up. It performs no
//! I/O. The caller hands it what happened (a datagram, a timeout, a block
//! read, a block written, a local failure) and carries out the [`Action`]
//! that comes back.

use vstd::prelude::*;
use crate::netascii::{chunk_output, holds_back, normalize_chunk};
use crate::protocol::{
    encode_ack, encode_data, encode_error, ErrorCode, Message, MessageView, Mode, BLOCK_SIZE,
};

verus! {

/// A remote endpoint: an IP address (IPv4 in its IPv6-mapped form) and a port.
#[derive(Debug, Clone, Copy, PartialEq, Eq, Structural)]
pub struct PeerAddr {
    pub ip: u128,
    pub port: u16,
}

/// Which way the blocks of this transfer go.
#[derive(Debug, Clone, Copy, PartialEq, Eq, Structural)]
pub enum Role {
    /// This side reads the source and sends data.
    Sending,
    /// This side receives data and writes the sink.
    Receiving,
}

/// Where a transfer stands.
#[derive(Debug, Clone, Copy, PartialEq, Eq, Structural)]
pub enum SessionState {
    /// No reply yet: the peer's address is still to be learnt.
    AwaitingFirstExchange,
    /// Blocks are going back and forth with a fixed peer.
    Active,
    /// The last block was confirmed.
    Completed,
    /// Given up: retries exhausted, a local failure, or an error from the peer.
    Failed,
}

/// What can go wrong with the source or the sink of a transfer.
#[derive(Debug, Clone, Copy, PartialEq, Eq, Structural)]
pub enum LocalFailure {
    /// The file to open does not exist.
    NotFound,
    /// The file may not be opened.
    AccessDenied,
    /// The sink did not take what was written to it.
    WriteFailed,
}

impl LocalFailure {
    /// The error code that tells the peer of this failure: a file that is
    /// not there or may not be opened is reported as such, and a failed
    /// write as a full disk.
    pub open spec fn error_code_spec(self) -> ErrorCode {
        match self {
            LocalFailure::NotFound => ErrorCode::FileNotFound,
            LocalFailure::AccessDenied => ErrorCode::AccessViolation,
            LocalFailure::WriteFailed => ErrorCode::DiskFull,
        }
    }

    /// The error code that tells the peer of this failure.
    #[verifier::when_used_as_spec(error_code_spec)]
    pub fn error_code(self) -> (r: ErrorCode)
        ensures
            r == self.error_code_spec(),
    {
        match self {
            LocalFailure::NotFound => ErrorCode::FileNotFound,
            LocalFailure::AccessDenied => ErrorCode::AccessViolation,
            LocalFailure::WriteFailed => ErrorCode::DiskFull,
        }
    }
}

/// What the caller does after handing an event to a session.
#[derive(Debug, PartialEq, Eq)]
pub enum Action {
    /// Nothing; a running deadline keeps running.
    Nothing,
    /// Restart the deadline and wait on.
    Rearm,
    /// Read the next block of the source and hand it to `on_block`.
    ReadBlock,
    /// Append `data` to the sink, then call `on_written` or `on_local_failure`.
    Write { data: Vec<u8> },
    /// Transmit `datagram` to the peer, and restart the deadline if `rearm`.
    Send { datagram: Vec<u8>, rearm: bool },
}

/// The mathematical content of an [`Action`].
pub enum ActionView {
    Nothing,
    Rearm,
    ReadBlock,
    Write { data: Seq<u8> },
    Send { datagram: Seq<u8>, rearm: bool },
}

impl View for Action {
    type V = ActionView;

    open spec fn view(&self) -> ActionView {
        match *self {
            Action::Nothing => ActionView::Nothing,
            Action::Rearm => ActionView::Rearm,
            Action::ReadBlock => ActionView::ReadBlock,
            Action::Write { data } => ActionView::Write { data: data@ },
            Action::Send { datagram, rearm } => ActionView::Send { datagram: datagram@, rearm },
        }
    }
}

/// The mathematical content of a [`TransferSession`].
pub struct SessionView {
    /// The remote endpoint, once it is known.
    pub peer_address: Option<PeerAddr>,
    pub role: Role,
    pub mode: Mode,
    /// Sending: the block in flight or next to be sent. Receiving: the block
    /// expected next.
    pub block_num: u16,
    /// Timeouts counted since the last progress.
    pub retry_count: u32,
    /// Timeouts that are answered with another wait.
    pub retry_limit: u32,
    pub state: SessionState,
    /// The caller is reading the source or writing the sink for this session.
    pub busy: bool,
    /// Sending: the payload of the block in flight.
    pub in_flight: Seq<u8>,
    /// Receiving: the payload length of the block being written.
    pub pending_len: nat,
    /// Receiving: how many acknowledgements went out, counted up to 65535.
    /// That many block numbers behind the expected one are acknowledged.
    pub acked: u32,
    /// Receiving text: the block before ended in a CR that is held back.
    pub carry_cr: bool,
}

/// How far the block number `b` lies behind `current`, going round from 0
/// to 65535: 0 for `current` itself, 1 for the block before it.
pub open spec fn blocks_behind(current: u16, b: u16) -> int {
    if current >= b {
        current - b
    } else {
        current - b + 0x10000
    }
}

/// One more acknowledgement on a count that stops at 65535.
pub open spec fn count_ack(acked: u32) -> u32 {
    if acked < 0xffff {
        (acked + 1) as u32
    } else {
        acked
    }
}

/// The block number after `b`: one more, and 0 after 65535.
pub open spec fn next_block(b: u16) -> u16 {
    if b == 0xffff {
        0
    } else {
        (b + 1) as u16
    }
}

impl SessionView {
    /// What every reachable session satisfies: retries within the limit, a
    /// block in flight no longer than a full block, a peer whenever the
    /// session is active, and none while it waits for the first reply.
    pub open spec fn wf(self) -> bool {
        &&& self.retry_count <= self.retry_limit
        &&& self.in_flight.len() <= BLOCK_SIZE
        &&& self.state == SessionState::Active ==> self.peer_address is Some
        &&& self.state == SessionState::AwaitingFirstExchange ==> self.peer_address is None
            && !self.busy
    }

    /// A transfer that has ended, well or badly.
    pub open spec fn terminal(self) -> bool {
        self.state == SessionState::Completed || self.state == SessionState::Failed
    }

    /// Whether this receiver has acknowledged block `b` before: `b` is one
    /// of the block numbers right behind the expected one, as many of them
    /// as acknowledgements went out.
    pub open spec fn already_acked(self, b: u16) -> bool {
        1 <= blocks_behind(self.block_num, b) <= self.acked
    }

    /// The datagram that carries the block in flight.
    pub open spec fn data_datagram(self) -> Seq<u8> {
        (MessageView::Data { block_num: self.block_num, data: self.in_flight }).encode()
    }

    /// What a receiver hands to the sink for an accepted payload: the payload
    /// itself, or in a text transfer its contribution to the normalised
    /// stream.
    pub open spec fn sink_bytes(self, payload: Seq<u8>) -> Seq<u8> {
        if self.mode == Mode::NetAscii {
            chunk_output(self.carry_cr, payload, payload.len() < BLOCK_SIZE)
        } else {
            payload
        }
    }

    /// Whether an accepted payload leaves a CR held back.
    pub open spec fn carry_after(self, payload: Seq<u8>) -> bool {
        self.mode == Mode::NetAscii && holds_back(
            self.carry_cr,
            payload,
            payload.len() < BLOCK_SIZE,
        )
    }

    /// The deadline passed. A session that waits for its peer counts the
    /// timeout; within the limit a sender transmits its block again and a
    /// receiver waits on, and past the limit the session fails.
    pub open spec fn on_timeout(self) -> (SessionView, ActionView) {
        if self.terminal() || self.busy {
            (self, ActionView::Nothing)
        } else if self.retry_count < self.retry_limit {
            let s = SessionView { retry_count: (self.retry_count + 1) as u32, ..self };
            if self.role == Role::Sending && self.state == SessionState::Active {
                (s, ActionView::Send { datagram: self.data_datagram(), rearm: true })
            } else {
                (s, ActionView::Rearm)
            }
        } else {
            (SessionView { state: SessionState::Failed, ..self }, ActionView::Nothing)
        }
    }

    /// The source gave the payload of the current block. A sender that asked
    /// for it puts it in flight.
    pub open spec fn on_block(self, data: Seq<u8>) -> (SessionView, ActionView) {
        if self.state == SessionState::Active && self.role == Role::Sending && self.busy {
            let s = SessionView { busy: false, in_flight: data, ..self };
            (s, ActionView::Send { datagram: s.data_datagram(), rearm: true })
        } else {
            (self, ActionView::Nothing)
        }
    }

    /// The sink took the payload it was given. A receiver that was writing
    /// acknowledges the block; a short block completes the transfer and a
    /// full one moves the session to the next block.
    pub open spec fn on_written(self) -> (SessionView, ActionView) {
        if self.state == SessionState::Active && self.role == Role::Receiving && self.busy {
            let ack = (MessageView::Ack { block_num: self.block_num }).encode();
            let s = SessionView { busy: false, acked: count_ack(self.acked), ..self };
            if self.pending_len < BLOCK_SIZE {
                (
                    SessionView { state: SessionState::Completed, ..s },
                    ActionView::Send { datagram: ack, rearm: false },
                )
            } else {
                (
                    SessionView { block_num: next_block(self.block_num), ..s },
                    ActionView::Send { datagram: ack, rearm: true },
                )
            }
        } else {
            (self, ActionView::Nothing)
        }
    }

    /// The source or the sink failed. A live session fails and, where it
    /// knows its peer, tells it so with the error code of the failure.
    pub open spec fn on_local_failure(self, failure: LocalFailure) -> (SessionView, ActionView) {
        if self.terminal() {
            (self, ActionView::Nothing)
        } else {
            let s = SessionView { state: SessionState::Failed, busy: false, ..self };
            if self.peer_address is Some {
                let code = failure.error_code_spec();
                let datagram = (MessageView::Error {
                    error_code: code.code_spec(),
                    error_msg: code.text(),
                }).encode();
                (s, ActionView::Send { datagram, rearm: false })
            } else {
                (s, ActionView::Nothing)
            }
        }
    }

    /// A message came from the peer of an active session.
    ///
    /// An error message fails the session. While the caller works on the
    /// source or sink nothing else counts. A sender takes the
    /// acknowledgement of the block in flight as progress; a receiver takes
    /// the data block it expects, and answers a repeat of a block it has
    /// acknowledged with the same acknowledgement. Everything else is noise.
    pub open spec fn on_message(self, msg: MessageView) -> (SessionView, ActionView) {
        if msg is Error {
            (SessionView { state: SessionState::Failed, busy: false, ..self }, ActionView::Nothing)
        } else if self.busy {
            (self, ActionView::Nothing)
        } else {
            match (self.role, msg) {
                (Role::Sending, MessageView::Ack { block_num }) => {
                    if block_num != self.block_num {
                        (self, ActionView::Nothing)
                    } else if self.in_flight.len() < BLOCK_SIZE {
                        (
                            SessionView { retry_count: 0, state: SessionState::Completed, ..self },
                            ActionView::Nothing,
                        )
                    } else {
                        (
                            SessionView {
                                retry_count: 0,
                                block_num: next_block(self.block_num),
                                busy: true,
                                ..self
                            },
                            ActionView::ReadBlock,
                        )
                    }
                },
                (Role::Receiving, MessageView::Data { block_num, data }) => {
                    if block_num == self.block_num {
                        (
                            SessionView {
                                retry_count: 0,
                                busy: true,
                                pending_len: data.len(),
                                carry_cr: self.carry_after(data),
                                ..self
                            },
                            ActionView::Write { data: self.sink_bytes(data) },
                        )
                    } else if self.already_acked(block_num) {
                        (
                            self,
                            ActionView::Send {
                                datagram: (MessageView::Ack { block_num }).encode(),
                                rearm: false,
                            },
                        )
                    } else {
                        (self, ActionView::Nothing)
                    }
                },
                _ => (self, ActionView::Nothing),
            }
        }
    }

    /// The first message that reaches a session without a peer: its source
    /// becomes the peer for good. A receiver then treats the message like
    /// any other; a sender takes any reply but an error as leave to begin.
    pub open spec fn on_first_message(self, from: PeerAddr, msg: MessageView) -> (
        SessionView,
        ActionView,
    ) {
        let s = SessionView { peer_address: Some(from), state: SessionState::Active, ..self };
        if self.role == Role::Sending && !(msg is Error) {
            (SessionView { busy: true, ..s }, ActionView::ReadBlock)
        } else {
            s.on_message(msg)
        }
    }

    /// A datagram came in. An ended session ignores it, and so does any
    /// session where the bytes are no message or, once the peer is fixed,
    /// come from somewhere else.
    pub open spec fn on_datagram(self, from: PeerAddr, bytes: Seq<u8>) -> (
        SessionView,
        ActionView,
    ) {
        match MessageView::decode(bytes) {
            None => (self, ActionView::Nothing),
            Some(msg) => match self.state {
                SessionState::AwaitingFirstExchange => self.on_first_message(from, msg),
                SessionState::Active => if self.peer_address == Some(from) {
                    self.on_message(msg)
                } else {
                    (self, ActionView::Nothing)
                },
                _ => (self, ActionView::Nothing),
            },
        }
    }
}

impl SessionView {
    /// A session that serves a request: the peer is the requester, and block
    /// 1 is current. A sender starts by reading; a receiver has acknowledged
    /// the request as block 0.
    pub open spec fn serving(role: Role, mode: Mode, peer: PeerAddr, retry_limit: u32) -> SessionView {
        SessionView {
            peer_address: Some(peer),
            role,
            mode,
            block_num: 1,
            retry_count: 0,
            retry_limit,
            state: SessionState::Active,
            busy: role == Role::Sending,
            in_flight: Seq::empty(),
            pending_len: 0,
            acked: if role == Role::Receiving {
                1
            } else {
                0
            },
            carry_cr: false,
        }
    }

    /// What a serving session does first.
    pub open spec fn first_action(role: Role) -> ActionView {
        match role {
            Role::Sending => ActionView::ReadBlock,
            Role::Receiving => ActionView::Send {
                datagram: (MessageView::Ack { block_num: 0 }).encode(),
                rearm: true,
            },
        }
    }

    /// A session whose request is on its way: no peer yet, block 1 current.
    pub open spec fn requesting(role: Role, mode: Mode, retry_limit: u32) -> SessionView {
        SessionView {
            peer_address: None,
            role,
            mode,
            block_num: 1,
            retry_count: 0,
            retry_limit,
            state: SessionState::AwaitingFirstExchange,
            busy: false,
            in_flight: Seq::empty(),
            pending_len: 0,
            acked: 0,
            carry_cr: false,
        }
    }
}

/// One transfer in progress.
#[derive(Debug)]
pub struct TransferSession {
    peer_address: Option<PeerAddr>,
    role: Role,
    mode: Mode,
    block_num: u16,
    retry_count: u32,
    retry_limit: u32,
    state: SessionState,
    busy: bool,
    in_flight: Vec<u8>,
    pending_len: usize,
    acked: u32,
    carry_cr: bool,
}

impl View for TransferSession {
    type V = SessionView;

    closed spec fn view(&self) -> SessionView {
        SessionView {
            peer_address: self.peer_address,
            role: self.role,
            mode: self.mode,
            block_num: self.block_num,
            retry_count: self.retry_count,
            retry_limit: self.retry_limit,
            state: self.state,
            busy: self.busy,
            in_flight: self.in_flight@,
            pending_len: self.pending_len as nat,
            acked: self.acked,
            carry_cr: self.carry_cr,
        }
    }
}

/// The block number after `b`.
fn successor(b: u16) -> (r: u16)
    ensures
        r == next_block(b),
{
    if b == 0xffff {
        0
    } else {
        b + 1
    }
}

impl TransferSession {
    /// Opens the session that serves a request from `peer`, and says what to
    /// do first.
    pub fn serve(role: Role, mode: Mode, peer: PeerAddr, retry_limit: u32) -> (r: (
        TransferSession,
        Action,
    ))
        ensures
            r.0@ == SessionView::serving(role, mode, peer, retry_limit),
            r.0@.wf(),
            r.1@ == SessionView::first_action(role),
    {
        let (busy, acked, first) = match role {
            Role::Sending => (true, 0u32, Action::ReadBlock),
            Role::Receiving => (false, 1u32, Action::Send { datagram: encode_ack(0), rearm: true }),
        };
        let session = TransferSession {
            peer_address: Some(peer),
            role,
            mode,
            block_num: 1,
            retry_count: 0,
            retry_limit,
            state: SessionState::Active,
            busy,
            in_flight: Vec::new(),
            pending_len: 0,
            acked,
            carry_cr: false,
        };
        (session, first)
    }

    /// Opens the session of a request that is on its way to a server.
    pub fn request(role: Role, mode: Mode, retry_limit: u32) -> (r: TransferSession)
        ensures
            r@ == SessionView::requesting(role, mode, retry_limit),
            r@.wf(),
    {
        TransferSession {
            peer_address: None,
            role,
            mode,
            block_num: 1,
            retry_count: 0,
            retry_limit,
            state: SessionState::AwaitingFirstExchange,
            busy: false,
            in_flight: Vec::new(),
            pending_len: 0,
            acked: 0,
            carry_cr: false,
        }
    }

    pub fn peer_address(&self) -> (r: Option<PeerAddr>)
        ensures
            r == self@.peer_address,
    {
        self.peer_address
    }

    pub fn role(&self) -> (r: Role)
        ensures
            r == self@.role,
    {
        self.role
    }

    pub fn mode(&self) -> (r: Mode)
        ensures
            r == self@.mode,
    {
        self.mode
    }

    pub fn block_num(&self) -> (r: u16)
        ensures
            r == self@.block_num,
    {
        self.block_num
    }

    pub fn retry_count(&self) -> (r: u32)
        ensures
            r == self@.retry_count,
    {
        self.retry_count
    }

    pub fn retry_limit(&self) -> (r: u32)
        ensures
            r == self@.retry_limit,
    {
        self.retry_limit
    }

    pub fn state(&self) -> (r: SessionState)
        ensures
            r == self@.state,
    {
        self.state
    }

    /// Whether the transfer has ended.
    pub fn is_terminal(&self) -> (r: bool)
        ensures
            r == self@.terminal(),
    {
        match self.state {
            SessionState::Completed => true,
            SessionState::Failed => true,
            _ => false,
        }
    }

    /// Whether this receiver has acknowledged block `b` before.
    fn is_already_acked(&self, b: u16) -> (r: bool)
        ensures
            r == self@.already_acked(b),
    {
        let behind: u32 = if self.block_num >= b {
            (self.block_num - b) as u32
        } else {
            0x10000 - ((b - self.block_num) as u32)
        };
        1 <= behind && behind <= self.acked
    }

    /// Whether `from` is the peer this session is bound to.
    fn is_peer(&self, from: PeerAddr) -> (r: bool)
        ensures
            r == (self@.peer_address == Some(from)),
    {
        match self.peer_address {
            Some(p) => p.ip == from.ip && p.port == from.port,
            None => false,
        }
    }

    /// The deadline passed with nothing accepted.
    pub fn on_timeout(&mut self) -> (a: Action)
        ensures
            final(self)@ == old(self)@.on_timeout().0,
            a@ == old(self)@.on_timeout().1,
            old(self)@.wf() ==> final(self)@.wf(),
    {
        if self.is_terminal() || self.busy {
            Action::Nothing
        } else if self.retry_count < self.retry_limit {
            self.retry_count = self.retry_count + 1;
            match (self.role, self.state) {
                (Role::Sending, SessionState::Active) => Action::Send {
                    datagram: encode_data(self.block_num, self.in_flight.as_slice()),
                    rearm: true,
                },
                _ => Action::Rearm,
            }
        } else {
            self.state = SessionState::Failed;
            Action::Nothing
        }
    }

    /// The source gave the payload of the current block; an empty payload
    /// stands for the end of the data.
    pub fn on_block(&mut self, data: Vec<u8>) -> (a: Action)
        requires
            data@.len() <= BLOCK_SIZE,
        ensures
            final(self)@ == old(self)@.on_block(data@).0,
            a@ == old(self)@.on_block(data@).1,
            old(self)@.wf() ==> final(self)@.wf(),
    {
        match (self.state, self.role, self.busy) {
            (SessionState::Active, Role::Sending, true) => {
                self.busy = false;
                self.in_flight = data;
                Action::Send {
                    datagram: encode_data(self.block_num, self.in_flight.as_slice()),
                    rearm: true,
                }
            },
            _ => Action::Nothing,
        }
    }

    /// The sink took the payload that the last `Write` handed out.
    pub fn on_written(&mut self) -> (a: Action)
        ensures
            final(self)@ == old(self)@.on_written().0,
            a@ == old(self)@.on_written().1,
            old(self)@.wf() ==> final(self)@.wf(),
    {
        match (self.state, self.role, self.busy) {
            (SessionState::Active, Role::Receiving, true) => {
                let datagram = encode_ack(self.block_num);
                self.busy = false;
                if self.acked < 0xffff {
                    self.acked = self.acked + 1;
                }
                if self.pending_len < BLOCK_SIZE {
                    self.state = SessionState::Completed;
                    Action::Send { datagram, rearm: false }
                } else {
                    self.block_num = successor(self.block_num);
                    Action::Send { datagram, rearm: true }
                }
            },
            _ => Action::Nothing,
        }
    }

    /// The source or the sink failed.
    pub fn on_local_failure(&mut self, failure: LocalFailure) -> (a: Action)
        ensures
            final(self)@ == old(self)@.on_local_failure(failure).0,
            a@ == old(self)@.on_local_failure(failure).1,
            old(self)@.wf() ==> final(self)@.wf(),
    {
        if self.is_terminal() {
            Action::Nothing
        } else {
            self.state = SessionState::Failed;
            self.busy = false;
            match self.peer_address {
                Some(_) => Action::Send {
                    datagram: encode_error(failure.error_code()),
                    rearm: false,
                },
                None => Action::Nothing,
            }
        }
    }

    /// A message came from the peer of this active session.
    fn on_message(&mut self, msg: Message) -> (a: Action)
        ensures
            final(self)@ == old(self)@.on_message(msg@).0,
            a@ == old(self)@.on_message(msg@).1,
    {
        match msg {
            Message::Error { .. } => {
                self.state = SessionState::Failed;
                self.busy = false;
                Action::Nothing
            },
            Message::Ack { block_num } => {
                match (self.busy, self.role) {
                    (false, Role::Sending) => {
                        if block_num != self.block_num {
                            Action::Nothing
                        } else if self.in_flight.len() < BLOCK_SIZE {
                            self.retry_count = 0;
                            self.state = SessionState::Completed;
                            Action::Nothing
                        } else {
                            self.retry_count = 0;
                            self.block_num = successor(self.block_num);
                            self.busy = true;
                            Action::ReadBlock
                        }
                    },
                    _ => Action::Nothing,
                }
            },
            Message::Data { block_num, data } => {
                match (self.busy, self.role) {
                    (false, Role::Receiving) => {
                        if block_num == self.block_num {
                            let last = data.len() < BLOCK_SIZE;
                            self.retry_count = 0;
                            self.busy = true;
                            self.pending_len = data.len();
                            match self.mode {
                                Mode::NetAscii => {
                                    let (out, carry) = normalize_chunk(
                                        self.carry_cr,
                                        data.as_slice(),
                                        last,
                                    );
                                    self.carry_cr = carry;
                                    Action::Write { data: out }
                                },
                                _ => {
                                    self.carry_cr = false;
                                    Action::Write { data }
                                },
                            }
                        } else {
                            if self.is_already_acked(block_num) {
                                Action::Send { datagram: encode_ack(block_num), rearm: false }
                            } else {
                                Action::Nothing
                            }
                        }
                    },
                    _ => Action::Nothing,
                }
            },
            _ => Action::Nothing,
        }
    }

    /// The first message reached this session, which had no peer yet.
    fn on_first_message(&mut self, from: PeerAddr, msg: Message) -> (a: Action)
        ensures
            final(self)@ == old(self)@.on_first_message(from, msg@).0,
            a@ == old(self)@.on_first_message(from, msg@).1,
    {
        self.peer_address = Some(from);
        self.state = SessionState::Active;
        match (self.role, &msg) {
            (Role::Sending, Message::Error { .. }) => self.on_message(msg),
            (Role::Sending, _) => {
                self.busy = true;
                Action::ReadBlock
            },
            _ => self.on_message(msg),
        }
    }

    /// A datagram came in from `from`.
    pub fn on_datagram(&mut self, from: PeerAddr, bytes: &[u8]) -> (a: Action)
        ensures
            final(self)@ == old(self)@.on_datagram(from, bytes@).0,
            a@ == old(self)@.on_datagram(from, bytes@).1,
            old(self)@.wf() ==> final(self)@.wf(),
    {
        match Message::decode(bytes) {
            Err(_) => Action::Nothing,
            Ok(msg) => match self.state {
                SessionState::AwaitingFirstExchange => self.on_first_message(from, msg),
                SessionState::Active => {
                    if self.is_peer(from) {
                        self.on_message(msg)
                    } else {
                        Action::Nothing
                    }
                },
                _ => Action::Nothing,
            },
        }
    }
}

} // verus!
