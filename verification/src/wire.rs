//! The wire format as mathematics: what each message looks like as bytes,
//! which byte strings are messages, and the laws that tie the two together.

use vstd::prelude::*;
use vstd::utf8::*;
use crate::protocol::{MessageView, Mode, BLOCK_SIZE};
use crate::text::{first_nul, nul_free, nul_free_text, lemma_first_nul, lemma_first_nul_after, lemma_utf8_nul};

verus! {

/// A 16-bit value as two bytes, most significant first.
pub open spec fn be16(v: u16) -> Seq<u8> {
    seq![(v / 256) as u8, (v % 256) as u8]
}

/// The 16-bit value whose big-endian bytes are `hi`, `lo`.
pub open spec fn from_be16(hi: u8, lo: u8) -> u16 {
    (hi as int * 256 + lo as int) as u16
}

/// What follows the opcode in a read or write request.
pub open spec fn request_payload(filename: Seq<char>, mode: Mode) -> Seq<u8> {
    encode_utf8(filename) + seq![0u8] + mode.name() + seq![0u8]
}

/// What follows the opcode in an error message.
pub open spec fn error_payload(code: u16, text: Seq<char>) -> Seq<u8> {
    be16(code) + encode_utf8(text) + seq![0u8]
}

/// Reads a request payload: a non-empty UTF-8 filename, a NUL, one of the
/// three mode names, a NUL, and nothing more.
pub open spec fn parse_request(p: Seq<u8>) -> Option<(Seq<char>, Mode)> {
    let i = first_nul(p);
    let name = p.take(i);
    let rest = p.skip(i + 1);
    if 0 < i < p.len() && rest.len() > 0 && rest.last() == 0 && valid_utf8(name) {
        match Mode::from_name(rest.drop_last()) {
            Some(mode) => Some((decode_utf8(name), mode)),
            None => None,
        }
    } else {
        None
    }
}

/// Reads an error payload: a 16-bit code, a UTF-8 text without NUL, and the
/// NUL that closes it as the last byte.
pub open spec fn parse_error(p: Seq<u8>) -> Option<(u16, Seq<char>)> {
    let body = p.skip(2);
    let text = body.take(first_nul(body));
    if p.len() >= 3 && first_nul(body) == body.len() - 1 && valid_utf8(text) {
        Some((from_be16(p[0], p[1]), decode_utf8(text)))
    } else {
        None
    }
}

impl MessageView {
    /// A message that the wire format can carry: a filename is not empty, no
    /// text field holds U+0000, the byte that ends a field, and a payload is
    /// no longer than a block.
    pub open spec fn wf(self) -> bool {
        match self {
            MessageView::Read { filename, .. } => filename.len() > 0 && nul_free_text(filename),
            MessageView::Write { filename, .. } => filename.len() > 0 && nul_free_text(filename),
            MessageView::Data { data, .. } => data.len() <= BLOCK_SIZE,
            MessageView::Ack { .. } => true,
            MessageView::Error { error_msg, .. } => nul_free_text(error_msg),
        }
    }

    /// The bytes of this message.
    pub open spec fn encode(self) -> Seq<u8> {
        match self {
            MessageView::Read { filename, mode } => be16(0) + request_payload(filename, mode),
            MessageView::Write { filename, mode } => be16(1) + request_payload(filename, mode),
            MessageView::Data { block_num, data } => be16(2) + be16(block_num) + data,
            MessageView::Ack { block_num } => be16(3) + be16(block_num),
            MessageView::Error { error_code, error_msg } => be16(4) + error_payload(
                error_code,
                error_msg,
            ),
        }
    }

    /// The message that `b` holds, or `None` where `b` is no message: fewer
    /// than two bytes, an opcode above 4, a request that is not exactly
    /// filename-NUL-mode-NUL, an unknown mode, a data message without its
    /// block number or with more than 512 bytes of payload, an
    /// acknowledgement that is not exactly two bytes after the opcode, a
    /// malformed error message, or text that is not UTF-8.
    pub open spec fn decode(b: Seq<u8>) -> Option<MessageView> {
        if b.len() < 2 {
            None
        } else {
            let op = from_be16(b[0], b[1]);
            let p = b.skip(2);
            if op == 0 {
                match parse_request(p) {
                    Some((filename, mode)) => Some(MessageView::Read { filename, mode }),
                    None => None,
                }
            } else if op == 1 {
                match parse_request(p) {
                    Some((filename, mode)) => Some(MessageView::Write { filename, mode }),
                    None => None,
                }
            } else if op == 2 {
                if 2 <= p.len() <= 2 + BLOCK_SIZE {
                    Some(MessageView::Data { block_num: from_be16(p[0], p[1]), data: p.skip(2) })
                } else {
                    None
                }
            } else if op == 3 {
                if p.len() == 2 {
                    Some(MessageView::Ack { block_num: from_be16(p[0], p[1]) })
                } else {
                    None
                }
            } else if op == 4 {
                match parse_error(p) {
                    Some((error_code, error_msg)) => Some(
                        MessageView::Error { error_code, error_msg },
                    ),
                    None => None,
                }
            } else {
                None
            }
        }
    }
}

/// Big-endian bytes give their value back.
pub proof fn lemma_be16_value(v: u16)
    ensures
        be16(v).len() == 2,
        from_be16(be16(v)[0], be16(v)[1]) == v,
{
}

/// A value taken from two bytes has those two as its big-endian bytes.
pub proof fn lemma_be16_bytes(hi: u8, lo: u8)
    ensures
        be16(from_be16(hi, lo)) == seq![hi, lo],
{
    assert(be16(from_be16(hi, lo)) =~= seq![hi, lo]);
}

/// The three mode names are told apart by `from_name`, and none holds a NUL.
pub proof fn lemma_mode_name(mode: Mode)
    ensures
        Mode::from_name(mode.name()) == Some(mode),
        nul_free(mode.name()),
        mode.name().len() > 0,
{
    assert(Mode::NetAscii.name().len() == 8);
    assert(Mode::Octet.name().len() == 5);
    assert(Mode::Mail.name().len() == 4);
}

/// A request payload built from a usable filename reads back as it was built.
pub proof fn lemma_parse_request_payload(filename: Seq<char>, mode: Mode)
    requires
        filename.len() > 0,
        nul_free_text(filename),
    ensures
        parse_request(request_payload(filename, mode)) == Some((filename, mode)),
{
    let name = encode_utf8(filename);
    let tail = mode.name() + seq![0u8];
    let p = request_payload(filename, mode);
    lemma_utf8_nul(filename);
    lemma_mode_name(mode);
    assert(p =~= name + seq![0u8] + tail);
    lemma_first_nul_after(name, tail);
    assert(p.take(name.len() as int) =~= name);
    assert(p.skip(name.len() as int + 1) =~= tail);
    assert(tail.drop_last() =~= mode.name());
    encode_utf8_valid_utf8(filename);
    encode_utf8_decode_utf8(filename);
}

/// Whatever reads as a request payload is the payload of what was read, and
/// the filename read is usable.
pub proof fn lemma_request_payload_parse(p: Seq<u8>)
    requires
        parse_request(p) is Some,
    ensures
        ({
            let (filename, mode) = parse_request(p)->0;
            &&& filename.len() > 0
            &&& nul_free_text(filename)
            &&& request_payload(filename, mode) == p
        }),
{
    let i = first_nul(p);
    let name = p.take(i);
    let rest = p.skip(i + 1);
    let (filename, mode) = parse_request(p)->0;
    lemma_first_nul(p);
    decode_utf8_encode_utf8(name);
    lemma_utf8_nul(filename);
    assert(rest.drop_last() == mode.name());
    assert(rest =~= mode.name() + seq![0u8]);
    assert(p =~= name + seq![0u8] + mode.name() + seq![0u8]);
}

/// An error payload built from a text without NUL reads back as it was built.
pub proof fn lemma_parse_error_payload(code: u16, text: Seq<char>)
    requires
        nul_free_text(text),
    ensures
        parse_error(error_payload(code, text)) == Some((code, text)),
{
    let bytes = encode_utf8(text);
    let p = error_payload(code, text);
    let body = p.skip(2);
    lemma_utf8_nul(text);
    assert(body =~= bytes + seq![0u8] + Seq::<u8>::empty());
    lemma_first_nul_after(bytes, Seq::<u8>::empty());
    assert(body.take(bytes.len() as int) =~= bytes);
    encode_utf8_valid_utf8(text);
    encode_utf8_decode_utf8(text);
    lemma_be16_value(code);
}

/// Whatever reads as an error payload is the payload of what was read, and
/// the text read holds no NUL.
pub proof fn lemma_error_payload_parse(p: Seq<u8>)
    requires
        parse_error(p) is Some,
    ensures
        ({
            let (code, text) = parse_error(p)->0;
            &&& nul_free_text(text)
            &&& error_payload(code, text) == p
        }),
{
    let body = p.skip(2);
    let n = first_nul(body);
    let bytes = body.take(n);
    let (code, text) = parse_error(p)->0;
    lemma_first_nul(body);
    decode_utf8_encode_utf8(bytes);
    lemma_utf8_nul(text);
    lemma_be16_bytes(p[0], p[1]);
    assert(body =~= bytes + seq![0u8]);
    assert(p =~= seq![p[0], p[1]] + body);
    assert(p =~= be16(code) + bytes + seq![0u8]);
}

/// Two big-endian bytes in front of `p` are read back as their value, and
/// skipping them leaves `p`.
pub proof fn lemma_be16_prefix(v: u16, p: Seq<u8>)
    ensures
        (be16(v) + p).len() == p.len() + 2,
        from_be16((be16(v) + p)[0], (be16(v) + p)[1]) == v,
        (be16(v) + p).skip(2) == p,
{
    let b = be16(v) + p;
    assert(b[0] == be16(v)[0]);
    assert(b[1] == be16(v)[1]);
    assert(b.skip(2) =~= p);
}

/// Round trip: every message that the wire can carry decodes, from its own
/// encoding, to itself.
pub proof fn lemma_decode_encode(m: MessageView)
    requires
        m.wf(),
    ensures
        MessageView::decode(m.encode()) == Some(m),
{
    match m {
        MessageView::Read { filename, mode } => {
            lemma_parse_request_payload(filename, mode);
            lemma_be16_prefix(0, request_payload(filename, mode));
        },
        MessageView::Write { filename, mode } => {
            lemma_parse_request_payload(filename, mode);
            lemma_be16_prefix(1, request_payload(filename, mode));
        },
        MessageView::Data { block_num, data } => {
            lemma_be16_prefix(block_num, data);
            lemma_be16_prefix(2, be16(block_num) + data);
            assert(m.encode() =~= be16(2) + (be16(block_num) + data));
        },
        MessageView::Ack { block_num } => {
            lemma_be16_prefix(block_num, Seq::<u8>::empty());
            lemma_be16_prefix(3, be16(block_num));
            assert(be16(block_num) + Seq::<u8>::empty() =~= be16(block_num));
        },
        MessageView::Error { error_code, error_msg } => {
            lemma_parse_error_payload(error_code, error_msg);
            lemma_be16_prefix(4, error_payload(error_code, error_msg));
        },
    }
}

/// Decoding inverts encoding: whatever `b` decodes to can be carried by the
/// wire and has `b` as its encoding, so no two byte strings decode to the
/// same message.
pub proof fn lemma_encode_decode(b: Seq<u8>)
    requires
        MessageView::decode(b) is Some,
    ensures
        MessageView::decode(b)->0.wf(),
        MessageView::decode(b)->0.encode() == b,
{
    let p = b.skip(2);
    let op = from_be16(b[0], b[1]);
    lemma_be16_bytes(b[0], b[1]);
    assert(b =~= seq![b[0], b[1]] + p);
    if op == 0 || op == 1 {
        lemma_request_payload_parse(p);
    } else if op == 2 || op == 3 {
        lemma_be16_bytes(p[0], p[1]);
        assert(p =~= seq![p[0], p[1]] + p.skip(2));
    } else {
        lemma_error_payload_parse(p);
    }
}

/// What decoding turns away, whatever else the bytes hold: fewer than two
/// bytes; an opcode above 4; a request that does not end in a NUL; a request
/// whose second field is no mode name.
pub proof fn lemma_decode_rejects(b: Seq<u8>, name: Seq<u8>, mode: Seq<u8>)
    ensures
        b.len() < 2 ==> MessageView::decode(b) is None,
        b.len() >= 2 && from_be16(b[0], b[1]) > 4 ==> MessageView::decode(b) is None,
        b.len() >= 2 && from_be16(b[0], b[1]) <= 1 && b.last() != 0 ==> MessageView::decode(b)
            is None,
        b.len() >= 2 && from_be16(b[0], b[1]) <= 1 && b.skip(2) == name + seq![0u8] + mode
            + seq![0u8] && nul_free(name) && Mode::from_name(mode) is None ==> MessageView::decode(
            b,
        ) is None,
{
    if b.len() >= 2 && from_be16(b[0], b[1]) <= 1 {
        let p = b.skip(2);
        let i = first_nul(p);
        let rest = p.skip(i + 1);
        lemma_first_nul(p);
        if b.last() != 0 && i < p.len() && rest.len() > 0 {
            assert(rest.last() == p[p.len() - 1]);
            assert(p[p.len() - 1] == b[b.len() - 1]);
        }
        if p == name + seq![0u8] + mode + seq![0u8] && nul_free(name) {
            assert(p =~= name + seq![0u8] + (mode + seq![0u8]));
            lemma_first_nul_after(name, mode + seq![0u8]);
            assert(rest =~= mode + seq![0u8]);
            assert(rest.drop_last() =~= mode);
        }
    }
}

} // verus!
