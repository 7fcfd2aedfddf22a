//! What holds of every transfer, stated over the session model and proved.

use vstd::prelude::*;
use crate::protocol::{MessageView, Mode, BLOCK_SIZE};
use crate::session::{
    next_block, ActionView, LocalFailure, PeerAddr, Role, SessionState, SessionView,
};
use crate::netascii::{chunk_input, concat, lemma_chunk_then_rest, normalize};
use crate::wire::lemma_decode_encode;

verus! {

impl SessionView {
    /// A sender whose block is in flight to `peer`.
    pub open spec fn sender_waiting(self, peer: PeerAddr) -> bool {
        &&& self.state == SessionState::Active
        &&& self.role == Role::Sending
        &&& self.peer_address == Some(peer)
        &&& !self.busy
    }

    /// A sender that is about to be handed its next block.
    pub open spec fn sender_reading(self, peer: PeerAddr) -> bool {
        &&& self.state == SessionState::Active
        &&& self.role == Role::Sending
        &&& self.peer_address == Some(peer)
        &&& self.busy
    }

    /// A receiver that waits for the next block from `peer`.
    pub open spec fn receiver_waiting(self, peer: PeerAddr) -> bool {
        &&& self.state == SessionState::Active
        &&& self.role == Role::Receiving
        &&& self.peer_address == Some(peer)
        &&& !self.busy
    }

    /// One confirmed block of a sender: the source gives `payload`, and the
    /// peer acknowledges the block that carries it.
    pub open spec fn sender_round(self, peer: PeerAddr, payload: Seq<u8>) -> SessionView {
        let sent = self.on_block(payload).0;
        sent.on_datagram(peer, (MessageView::Ack { block_num: self.block_num }).encode()).0
    }

    /// One confirmed block of a receiver: the expected block arrives with
    /// `payload`, and the sink takes it.
    pub open spec fn receiver_round(self, peer: PeerAddr, payload: Seq<u8>) -> SessionView {
        let data = MessageView::Data { block_num: self.block_num, data: payload };
        self.on_datagram(peer, data.encode()).0.on_written().0
    }

    /// A run of confirmed blocks, one round for each payload.
    pub open spec fn rounds(self, peer: PeerAddr, payloads: Seq<Seq<u8>>) -> SessionView
        decreases payloads.len(),
    {
        if payloads.len() == 0 {
            self
        } else {
            let next = match self.role {
                Role::Sending => self.sender_round(peer, payloads[0]),
                Role::Receiving => self.receiver_round(peer, payloads[0]),
            };
            next.rounds(peer, payloads.drop_first())
        }
    }

    /// What a receiver hands to its sink over a run of confirmed blocks.
    pub open spec fn written(self, peer: PeerAddr, payloads: Seq<Seq<u8>>) -> Seq<u8>
        decreases payloads.len(),
    {
        if payloads.len() == 0 {
            Seq::empty()
        } else {
            self.sink_bytes(payloads[0]) + self.receiver_round(peer, payloads[0]).written(
                peer,
                payloads.drop_first(),
            )
        }
    }

    /// `n` deadlines pass in a row: the session after them, and the number of
    /// transmissions they caused.
    pub open spec fn timeouts(self, n: nat) -> (SessionView, nat)
        decreases n,
    {
        if n == 0 {
            (self, 0)
        } else {
            let (s, a) = self.on_timeout();
            let (t, sent) = s.timeouts((n - 1) as nat);
            (
                t,
                if a is Send {
                    sent + 1
                } else {
                    sent
                },
            )
        }
    }
}

/// Full blocks only.
pub open spec fn all_full(payloads: Seq<Seq<u8>>) -> bool {
    forall|i: int| 0 <= i < payloads.len() ==> (#[trigger] payloads[i]).len() == BLOCK_SIZE
}

/// A file cut into blocks: every block full but the last, which is short.
pub open spec fn is_file(payloads: Seq<Seq<u8>>) -> bool {
    &&& payloads.len() > 0
    &&& payloads.last().len() < BLOCK_SIZE
    &&& forall|i: int|
        0 <= i < payloads.len() - 1 ==> (#[trigger] payloads[i]).len() == BLOCK_SIZE
}

/// Every step keeps a session well-formed.
pub proof fn lemma_steps_keep_wf(
    s: SessionView,
    from: PeerAddr,
    bytes: Seq<u8>,
    block: Seq<u8>,
    failure: LocalFailure,
)
    requires
        s.wf(),
        block.len() <= BLOCK_SIZE,
    ensures
        s.on_datagram(from, bytes).0.wf(),
        s.on_timeout().0.wf(),
        s.on_block(block).0.wf(),
        s.on_written().0.wf(),
        s.on_local_failure(failure).0.wf(),
{
}

/// Sessions are well-formed from the start.
pub proof fn lemma_new_sessions_wf(role: Role, mode: Mode, peer: PeerAddr, retry_limit: u32)
    ensures
        SessionView::serving(role, mode, peer, retry_limit).wf(),
        SessionView::requesting(role, mode, retry_limit).wf(),
{
}

/// Block numbers gate what reaches the sink: a write is only ever asked for
/// by a datagram, sent by the peer, that holds the data block the session
/// expects, and what is written is that block's payload as the mode has it.
pub proof fn lemma_only_expected_blocks_are_written(
    s: SessionView,
    from: PeerAddr,
    bytes: Seq<u8>,
    block: Seq<u8>,
    failure: LocalFailure,
)
    ensures
        !(s.on_timeout().1 is Write),
        !(s.on_block(block).1 is Write),
        !(s.on_written().1 is Write),
        !(s.on_local_failure(failure).1 is Write),
        s.on_datagram(from, bytes).1 is Write ==> {
            &&& s.role == Role::Receiving
            &&& s.state == SessionState::AwaitingFirstExchange || s.peer_address == Some(from)
            &&& MessageView::decode(bytes) matches Some(MessageView::Data { block_num, data })
            &&& block_num == s.block_num
            &&& s.on_datagram(from, bytes).1 == ActionView::Write { data: s.sink_bytes(data) }
        },
{
}

/// How far a state lies along the way from the first exchange to the end.
pub open spec fn progress(state: SessionState) -> int {
    match state {
        SessionState::AwaitingFirstExchange => 0,
        SessionState::Active => 1,
        SessionState::Completed => 2,
        SessionState::Failed => 2,
    }
}

/// A session only moves forward: from the first exchange to active, from
/// there to completed or failed, and never back.
pub proof fn lemma_states_only_advance(
    s: SessionView,
    from: PeerAddr,
    bytes: Seq<u8>,
    block: Seq<u8>,
    failure: LocalFailure,
)
    ensures
        progress(s.on_datagram(from, bytes).0.state) >= progress(s.state),
        progress(s.on_timeout().0.state) >= progress(s.state),
        progress(s.on_block(block).0.state) >= progress(s.state),
        progress(s.on_written().0.state) >= progress(s.state),
        progress(s.on_local_failure(failure).0.state) >= progress(s.state),
{
}

/// What a session sends, its peer can read: every datagram that a step
/// hands out is the encoding of a message and decodes to it.
pub proof fn lemma_sent_datagrams_decode(
    s: SessionView,
    from: PeerAddr,
    bytes: Seq<u8>,
    block: Seq<u8>,
    failure: LocalFailure,
)
    requires
        s.wf(),
        block.len() <= BLOCK_SIZE,
    ensures
        s.on_datagram(from, bytes).1 is Send ==> MessageView::decode(
            s.on_datagram(from, bytes).1->datagram,
        ) is Some,
        s.on_timeout().1 is Send ==> MessageView::decode(s.on_timeout().1->datagram) is Some,
        s.on_block(block).1 is Send ==> MessageView::decode(s.on_block(block).1->datagram)
            is Some,
        s.on_written().1 is Send ==> MessageView::decode(s.on_written().1->datagram) is Some,
        s.on_local_failure(failure).1 is Send ==> MessageView::decode(
            s.on_local_failure(failure).1->datagram,
        ) is Some,
        MessageView::decode(SessionView::first_action(Role::Receiving)->datagram) is Some,
{
    lemma_decode_encode(MessageView::Data { block_num: s.block_num, data: s.in_flight });
    lemma_decode_encode(MessageView::Data { block_num: s.block_num, data: block });
    lemma_decode_encode(MessageView::Ack { block_num: s.block_num });
    lemma_decode_encode(MessageView::Ack { block_num: 0 });
    let code = failure.error_code_spec();
    code.lemma_text_nul_free();
    lemma_decode_encode(
        MessageView::Error { error_code: code.code_spec(), error_msg: code.text() },
    );
    if let Some(MessageView::Data { block_num, .. }) = MessageView::decode(bytes) {
        lemma_decode_encode(MessageView::Ack { block_num });
    }
}

/// An ended session stays as it is, whatever happens, and asks for nothing.
pub proof fn lemma_terminal_is_final(
    s: SessionView,
    from: PeerAddr,
    bytes: Seq<u8>,
    block: Seq<u8>,
    failure: LocalFailure,
)
    requires
        s.terminal(),
    ensures
        s.on_datagram(from, bytes) == (s, ActionView::Nothing),
        s.on_timeout() == (s, ActionView::Nothing),
        s.on_block(block) == (s, ActionView::Nothing),
        s.on_written() == (s, ActionView::Nothing),
        s.on_local_failure(failure) == (s, ActionView::Nothing),
{
}

/// The peer is fixed by the first exchange: no step of an active session
/// changes it, and a datagram from anywhere else changes nothing at all.
pub proof fn lemma_peer_is_fixed(
    s: SessionView,
    peer: PeerAddr,
    from: PeerAddr,
    bytes: Seq<u8>,
    block: Seq<u8>,
    failure: LocalFailure,
)
    requires
        s.state == SessionState::Active,
        s.peer_address == Some(peer),
    ensures
        s.on_datagram(from, bytes).0.peer_address == Some(peer),
        from != peer ==> s.on_datagram(from, bytes) == (s, ActionView::Nothing),
        s.on_timeout().0.peer_address == Some(peer),
        s.on_block(block).0.peer_address == Some(peer),
        s.on_written().0.peer_address == Some(peer),
        s.on_local_failure(failure).0.peer_address == Some(peer),
{
}

/// A confirmed full block moves a sender on by one block number, and a
/// confirmed short block completes its transfer.
pub proof fn lemma_sender_round(s: SessionView, peer: PeerAddr, payload: Seq<u8>)
    requires
        s.sender_reading(peer),
    ensures
        s.on_block(payload).1 == (ActionView::Send {
            datagram: (MessageView::Data { block_num: s.block_num, data: payload }).encode(),
            rearm: true,
        }),
        s.on_block(payload).0.sender_waiting(peer),
        payload.len() >= BLOCK_SIZE ==> s.sender_round(peer, payload) == (SessionView {
            block_num: next_block(s.block_num),
            retry_count: 0,
            in_flight: payload,
            ..s
        }),
        payload.len() < BLOCK_SIZE ==> s.sender_round(peer, payload) == (SessionView {
            state: SessionState::Completed,
            retry_count: 0,
            in_flight: payload,
            busy: false,
            ..s
        }),
{
    lemma_decode_encode(MessageView::Ack { block_num: s.block_num });
}

/// A confirmed full block moves a receiver on by one block number, and the
/// block is written once and acknowledged once.
pub proof fn lemma_receiver_round(s: SessionView, peer: PeerAddr, payload: Seq<u8>)
    requires
        s.receiver_waiting(peer),
        payload.len() <= BLOCK_SIZE,
    ensures
        ({
            let data = MessageView::Data { block_num: s.block_num, data: payload };
            let (writing, first) = s.on_datagram(peer, data.encode());
            let (done, second) = writing.on_written();
            &&& first == ActionView::Write { data: s.sink_bytes(payload) }
            &&& second is Send
            &&& second->datagram == (MessageView::Ack { block_num: s.block_num }).encode()
            &&& payload.len() >= BLOCK_SIZE ==> done.already_acked(s.block_num)
            &&& done.retry_count == 0
            &&& done.mode == s.mode
            &&& done.carry_cr == s.carry_after(payload)
            &&& payload.len() >= BLOCK_SIZE ==> done.receiver_waiting(peer) && done.block_num
                == next_block(s.block_num)
            &&& payload.len() < BLOCK_SIZE ==> done.state == SessionState::Completed
                && done.block_num == s.block_num
        }),
{
    lemma_decode_encode(MessageView::Data { block_num: s.block_num, data: payload });
}

/// Block monotonicity: after `n` full blocks, each confirmed, the block
/// number stands `n` further on, counted modulo 65536. A session that
/// starts at 1 therefore runs 1, 2, ..., 65535, 0, 1, ...
pub proof fn lemma_block_numbers_advance(s: SessionView, peer: PeerAddr, payloads: Seq<Seq<u8>>)
    requires
        s.sender_reading(peer) || s.receiver_waiting(peer),
        all_full(payloads),
    ensures
        s.rounds(peer, payloads).block_num == (s.block_num + payloads.len()) % 0x10000,
        s.rounds(peer, payloads).state == SessionState::Active,
        s.rounds(peer, payloads).role == s.role,
    decreases payloads.len(),
{
    if payloads.len() > 0 {
        let rest = payloads.drop_first();
        assert(payloads[0].len() == BLOCK_SIZE);
        assert forall|i: int| 0 <= i < rest.len() implies (#[trigger] rest[i]).len()
            == BLOCK_SIZE by {
            assert(rest[i] == payloads[i + 1]);
        }
        match s.role {
            Role::Sending => {
                lemma_sender_round(s, peer, payloads[0]);
                let next = s.sender_round(peer, payloads[0]);
                lemma_block_numbers_advance(next, peer, rest);
            },
            Role::Receiving => {
                lemma_receiver_round(s, peer, payloads[0]);
                let next = s.receiver_round(peer, payloads[0]);
                lemma_block_numbers_advance(next, peer, rest);
            },
        }
    }
}

/// Duplicate idempotence: an acknowledgement or a data block whose number
/// is not the current one, or that arrives while the current block is
/// already being worked on, is never progress. It leaves the block number
/// and the retry count alone and causes no write; an active session stays
/// exactly as it is, and at most answers a repeat of a block it has
/// acknowledged with that acknowledgement again.
pub proof fn lemma_stale_is_not_progress(s: SessionView, from: PeerAddr, bytes: Seq<u8>)
    requires
        match MessageView::decode(bytes) {
            Some(MessageView::Ack { block_num }) => block_num != s.block_num || s.busy,
            Some(MessageView::Data { block_num, .. }) => block_num != s.block_num || s.busy,
            _ => false,
        },
    ensures
        ({
            let (t, a) = s.on_datagram(from, bytes);
            &&& t.block_num == s.block_num
            &&& t.retry_count == s.retry_count
            &&& !(a is Write)
            &&& s.state != SessionState::AwaitingFirstExchange ==> t == s
            &&& s.state != SessionState::AwaitingFirstExchange ==> a == ActionView::Nothing || (
                a is Send && !a->rearm && MessageView::decode(bytes) is Some
                    && MessageView::decode(bytes)->0 is Data && s.already_acked(
                    MessageView::decode(bytes)->0->Data_block_num,
                ) && a->datagram == (MessageView::Ack {
                    block_num: MessageView::decode(bytes)->0->Data_block_num,
                }).encode())
        }),
{
}

/// Short-block termination: a receiver that gets the block it expects with
/// a payload under 512 bytes writes it, sends one acknowledgement and is
/// completed; whatever arrives later is ignored.
pub proof fn lemma_short_block_completes(
    s: SessionView,
    peer: PeerAddr,
    payload: Seq<u8>,
    later_from: PeerAddr,
    later: Seq<u8>,
)
    requires
        s.receiver_waiting(peer),
        payload.len() < BLOCK_SIZE,
    ensures
        ({
            let data = MessageView::Data { block_num: s.block_num, data: payload };
            let (writing, first) = s.on_datagram(peer, data.encode());
            let (done, second) = writing.on_written();
            &&& first == ActionView::Write { data: s.sink_bytes(payload) }
            &&& second == ActionView::Send {
                datagram: (MessageView::Ack { block_num: s.block_num }).encode(),
                rearm: false,
            }
            &&& done.state == SessionState::Completed
            &&& done.on_datagram(later_from, later) == (done, ActionView::Nothing)
        }),
{
    lemma_decode_encode(MessageView::Data { block_num: s.block_num, data: payload });
}

/// Retry budget: a sender whose block is never acknowledged transmits that
/// block again on each of the first `retry_limit` timeouts and fails on the
/// next one, without another transmission. Of `n` timeouts in a row, the
/// first `retry_limit - retry_count` are answered by a transmission.
pub proof fn lemma_retry_budget(s: SessionView, peer: PeerAddr, n: nat)
    requires
        s.sender_waiting(peer),
        s.retry_count <= s.retry_limit,
    ensures
        s.retry_count < s.retry_limit ==> s.on_timeout() == (
            SessionView { retry_count: (s.retry_count + 1) as u32, ..s },
            ActionView::Send { datagram: s.data_datagram(), rearm: true },
        ),
        s.retry_count == s.retry_limit ==> s.on_timeout() == (
            SessionView { state: SessionState::Failed, ..s },
            ActionView::Nothing,
        ),
        ({
            let left = (s.retry_limit - s.retry_count) as nat;
            let (t, sent) = s.timeouts(n);
            &&& n <= left ==> sent == n && t == (SessionView {
                retry_count: (s.retry_count + n) as u32,
                ..s
            })
            &&& n > left ==> sent == left && t == (SessionView {
                retry_count: s.retry_limit,
                state: SessionState::Failed,
                ..s
            })
        }),
    decreases n,
{
    if n > 0 {
        let (s1, a) = s.on_timeout();
        if s.retry_count < s.retry_limit {
            lemma_retry_budget(s1, peer, (n - 1) as nat);
        } else {
            lemma_failed_stays(s1, (n - 1) as nat);
        }
    }
}

/// Deadlines that pass on an ended session change nothing and send nothing.
pub proof fn lemma_failed_stays(s: SessionView, n: nat)
    requires
        s.terminal(),
    ensures
        s.timeouts(n) == (s, 0nat),
    decreases n,
{
    if n > 0 {
        lemma_failed_stays(s, (n - 1) as nat);
    }
}

/// A receiver, and a session that still waits for its first reply, have
/// nothing to send again: each of the first `retry_limit` timeouts is
/// counted, and the next one fails the session.
pub proof fn lemma_silent_retry_budget(s: SessionView, n: nat)
    requires
        !s.terminal(),
        !s.busy,
        s.role == Role::Receiving || s.state == SessionState::AwaitingFirstExchange,
        s.retry_count <= s.retry_limit,
    ensures
        ({
            let left = (s.retry_limit - s.retry_count) as nat;
            let (t, sent) = s.timeouts(n);
            &&& sent == 0
            &&& n <= left ==> t == (SessionView { retry_count: (s.retry_count + n) as u32, ..s })
            &&& n > left ==> t == (SessionView {
                retry_count: s.retry_limit,
                state: SessionState::Failed,
                ..s
            })
        }),
    decreases n,
{
    if n > 0 {
        let (s1, a) = s.on_timeout();
        if s.retry_count < s.retry_limit {
            lemma_silent_retry_budget(s1, (n - 1) as nat);
        } else {
            lemma_failed_stays(s1, (n - 1) as nat);
        }
    }
}

/// A receiver that is sent a whole file completes, and its sink gets the
/// file: byte for byte in a binary transfer, and with its line endings
/// normalised, also across block boundaries, in a text transfer.
pub proof fn lemma_receiver_writes_the_file(s: SessionView, peer: PeerAddr, payloads: Seq<Seq<u8>>)
    requires
        s.receiver_waiting(peer),
        is_file(payloads),
    ensures
        s.rounds(peer, payloads).state == SessionState::Completed,
        s.mode != Mode::NetAscii ==> s.written(peer, payloads) == concat(payloads),
        s.mode == Mode::NetAscii ==> s.written(peer, payloads) == normalize(
            chunk_input(s.carry_cr, concat(payloads)),
        ),
    decreases payloads.len(),
{
    let first = payloads[0];
    let rest = payloads.drop_first();
    let next = s.receiver_round(peer, first);
    assert(s.rounds(peer, payloads) == next.rounds(peer, rest));
    assert(s.written(peer, payloads) == s.sink_bytes(first) + next.written(peer, rest));
    assert(concat(payloads) == first + concat(rest));
    if payloads.len() == 1 {
        assert(first == payloads.last());
        lemma_receiver_round(s, peer, first);
        assert(next.rounds(peer, rest) == next);
        assert(next.written(peer, rest) == Seq::<u8>::empty());
        assert(concat(rest) == Seq::<u8>::empty());
        assert(s.sink_bytes(first) + Seq::<u8>::empty() =~= s.sink_bytes(first));
        assert(first + Seq::<u8>::empty() =~= first);
    } else {
        assert(first.len() == BLOCK_SIZE);
        assert(rest.last() == payloads.last());
        assert forall|i: int| 0 <= i < rest.len() - 1 implies (#[trigger] rest[i]).len()
            == BLOCK_SIZE by {
            assert(rest[i] == payloads[i + 1]);
        }
        lemma_receiver_round(s, peer, first);
        lemma_receiver_writes_the_file(next, peer, rest);
        if s.mode == Mode::NetAscii {
            lemma_chunk_then_rest(s.carry_cr, first, concat(rest));
        }
    }
}

} // verus!
