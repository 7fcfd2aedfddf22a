//! The five wire messages and their binary codec.

use vstd::prelude::*;
use vstd::slice::{slice_subrange, slice_to_vec};
use vstd::std_specs::convert::TryFromSpecImpl;
use vstd::string::StringSliceAdditionalSpecFns;
use vstd::utf8::{encode_utf8, is_ascii_chars, is_ascii_chars_encode_utf8};
use crate::bytes::slice_eq;
use crate::text::{decode_text, find_nul};
use crate::wire::{be16, from_be16, parse_error, parse_request};

verus! {

/// The payload length of every data block but the last, and the most that
/// a data message carries.
pub const BLOCK_SIZE: usize = 512;

/// Transfer mode named in a read or write request.
#[derive(Debug, Clone, Copy, PartialEq, Eq, Structural)]
pub enum Mode {
    /// Text transfer with line-ending normalisation.
    NetAscii,
    /// Raw bytes.
    Octet,
    /// Accepted on the wire; no transfer semantics.
    Mail,
}

impl Mode {
    /// The mode's name as it stands on the wire (ASCII, lower case).
    pub open spec fn name(self) -> Seq<u8> {
        match self {
            Mode::NetAscii => seq![110u8, 101, 116, 97, 115, 99, 105, 105],
            Mode::Octet => seq![111u8, 99, 116, 101, 116],
            Mode::Mail => seq![109u8, 97, 105, 108],
        }
    }

    /// The mode that a wire name stands for, if it is one of the three.
    pub open spec fn from_name(name: Seq<u8>) -> Option<Mode> {
        if name == Mode::NetAscii.name() {
            Some(Mode::NetAscii)
        } else if name == Mode::Octet.name() {
            Some(Mode::Octet)
        } else if name == Mode::Mail.name() {
            Some(Mode::Mail)
        } else {
            None
        }
    }

    /// The mode's name as text.
    pub open spec fn text(self) -> Seq<char> {
        match self {
            Mode::NetAscii => "netascii"@,
            Mode::Octet => "octet"@,
            Mode::Mail => "mail"@,
        }
    }

    /// The wire name is the UTF-8 form of the text name.
    pub proof fn lemma_text_name(self)
        ensures
            encode_utf8(self.text()) == self.name(),
    {
        reveal_strlit("netascii");
        reveal_strlit("octet");
        reveal_strlit("mail");
        let t = self.text();
        assert(is_ascii_chars(t));
        is_ascii_chars_encode_utf8(t);
        assert(encode_utf8(t) =~= self.name());
    }

    /// The mode's name, as it is written into a request.
    pub fn as_str(&self) -> (r: &'static str)
        ensures
            r@ == self.text(),
    {
        match self {
            Mode::NetAscii => "netascii",
            Mode::Octet => "octet",
            Mode::Mail => "mail",
        }
    }

    /// The mode's name as an owned string.
    pub fn to_string(&self) -> (r: String)
        ensures
            r@ == self.text(),
    {
        self.as_str().to_owned()
    }

    /// Recognises a mode name; the match is exact and case-sensitive.
    pub fn from_bytes(bytes: &[u8]) -> (r: Option<Mode>)
        ensures
            r == Mode::from_name(bytes@),
    {
        let netascii: [u8; 8] = [110, 101, 116, 97, 115, 99, 105, 105];
        let octet: [u8; 5] = [111, 99, 116, 101, 116];
        let mail: [u8; 4] = [109, 97, 105, 108];
        assert(netascii@ =~= Mode::NetAscii.name());
        assert(octet@ =~= Mode::Octet.name());
        assert(mail@ =~= Mode::Mail.name());
        if slice_eq(bytes, netascii.as_slice()) {
            Some(Mode::NetAscii)
        } else if slice_eq(bytes, octet.as_slice()) {
            Some(Mode::Octet)
        } else if slice_eq(bytes, mail.as_slice()) {
            Some(Mode::Mail)
        } else {
            None
        }
    }
}

/// Error codes that an `Error` message can carry.
#[derive(Debug, Clone, Copy, PartialEq, Eq, Structural)]
pub enum ErrorCode {
    Generic,
    FileNotFound,
    AccessViolation,
    DiskFull,
    IllegalOperation,
    UnknownTransferId,
    FileExists,
    NoSuchUser,
}

impl ErrorCode {
    /// The 16-bit value that stands for this code on the wire.
    pub open spec fn code_spec(self) -> u16 {
        match self {
            ErrorCode::Generic => 0,
            ErrorCode::FileNotFound => 1,
            ErrorCode::AccessViolation => 2,
            ErrorCode::DiskFull => 3,
            ErrorCode::IllegalOperation => 4,
            ErrorCode::UnknownTransferId => 5,
            ErrorCode::FileExists => 6,
            ErrorCode::NoSuchUser => 7,
        }
    }

    /// The named code for a wire value, if it has a name.
    pub open spec fn from_code_spec(code: u16) -> Option<ErrorCode> {
        if code == 0 {
            Some(ErrorCode::Generic)
        } else if code == 1 {
            Some(ErrorCode::FileNotFound)
        } else if code == 2 {
            Some(ErrorCode::AccessViolation)
        } else if code == 3 {
            Some(ErrorCode::DiskFull)
        } else if code == 4 {
            Some(ErrorCode::IllegalOperation)
        } else if code == 5 {
            Some(ErrorCode::UnknownTransferId)
        } else if code == 6 {
            Some(ErrorCode::FileExists)
        } else if code == 7 {
            Some(ErrorCode::NoSuchUser)
        } else {
            None
        }
    }

    #[verifier::when_used_as_spec(code_spec)]
    pub fn code(self) -> (r: u16)
        ensures
            r == self.code_spec(),
    {
        match self {
            ErrorCode::Generic => 0,
            ErrorCode::FileNotFound => 1,
            ErrorCode::AccessViolation => 2,
            ErrorCode::DiskFull => 3,
            ErrorCode::IllegalOperation => 4,
            ErrorCode::UnknownTransferId => 5,
            ErrorCode::FileExists => 6,
            ErrorCode::NoSuchUser => 7,
        }
    }

    pub fn from_code(code: u16) -> (r: Option<ErrorCode>)
        ensures
            r == ErrorCode::from_code_spec(code),
    {
        match code {
            0 => Some(ErrorCode::Generic),
            1 => Some(ErrorCode::FileNotFound),
            2 => Some(ErrorCode::AccessViolation),
            3 => Some(ErrorCode::DiskFull),
            4 => Some(ErrorCode::IllegalOperation),
            5 => Some(ErrorCode::UnknownTransferId),
            6 => Some(ErrorCode::FileExists),
            7 => Some(ErrorCode::NoSuchUser),
            _ => None,
        }
    }

    /// The text that goes out with this code.
    pub open spec fn text(self) -> Seq<char> {
        match self {
            ErrorCode::Generic => "Undefined error"@,
            ErrorCode::FileNotFound => "File not found"@,
            ErrorCode::AccessViolation => "Access violation"@,
            ErrorCode::DiskFull => "Disk full"@,
            ErrorCode::IllegalOperation => "Illegal operation"@,
            ErrorCode::UnknownTransferId => "Unknown transfer ID"@,
            ErrorCode::FileExists => "File already exists"@,
            ErrorCode::NoSuchUser => "No such user"@,
        }
    }

    /// The text that goes out with this code.
    pub fn message(self) -> (r: &'static str)
        ensures
            r@ == self.text(),
    {
        match self {
            ErrorCode::Generic => "Undefined error",
            ErrorCode::FileNotFound => "File not found",
            ErrorCode::AccessViolation => "Access violation",
            ErrorCode::DiskFull => "Disk full",
            ErrorCode::IllegalOperation => "Illegal operation",
            ErrorCode::UnknownTransferId => "Unknown transfer ID",
            ErrorCode::FileExists => "File already exists",
            ErrorCode::NoSuchUser => "No such user",
        }
    }

    /// No standard text holds a NUL, so every standard error message can be
    /// carried by the wire.
    pub proof fn lemma_text_nul_free(self)
        ensures
            crate::text::nul_free_text(self.text()),
    {
        reveal_strlit("Undefined error");
        reveal_strlit("File not found");
        reveal_strlit("Access violation");
        reveal_strlit("Disk full");
        reveal_strlit("Illegal operation");
        reveal_strlit("Unknown transfer ID");
        reveal_strlit("File already exists");
        reveal_strlit("No such user");
    }

    /// Every named code survives the trip to its wire value and back.
    pub proof fn lemma_code_round_trip(c: ErrorCode)
        ensures
            ErrorCode::from_code_spec(c.code_spec()) == Some(c),
    {
    }
}

/// One protocol message. A data message carries at most 512 bytes; a
/// payload under 512 bytes marks the last block of a transfer.
///
/// ```text
/// Read / Write   opcode(2) filename 0 mode 0
/// Data           opcode(2) block(2) payload
/// Ack            opcode(2) block(2)
/// Error          opcode(2) code(2) message 0
/// ```
#[derive(Debug, PartialEq, Eq)]
pub enum Message {
    Read { filename: String, mode: Mode },
    Write { filename: String, mode: Mode },
    Data { block_num: u16, data: Vec<u8> },
    Ack { block_num: u16 },
    Error { error_code: u16, error_msg: String },
}

/// The mathematical content of a [`Message`].
pub enum MessageView {
    Read { filename: Seq<char>, mode: Mode },
    Write { filename: Seq<char>, mode: Mode },
    Data { block_num: u16, data: Seq<u8> },
    Ack { block_num: u16 },
    Error { error_code: u16, error_msg: Seq<char> },
}

impl View for Message {
    type V = MessageView;

    open spec fn view(&self) -> MessageView {
        match *self {
            Message::Read { filename, mode } => MessageView::Read { filename: filename@, mode },
            Message::Write { filename, mode } => MessageView::Write { filename: filename@, mode },
            Message::Data { block_num, data } => MessageView::Data { block_num, data: data@ },
            Message::Ack { block_num } => MessageView::Ack { block_num },
            Message::Error { error_code, error_msg } => MessageView::Error {
                error_code,
                error_msg: error_msg@,
            },
        }
    }
}

impl Message {
    pub const READ: u16 = 0;
    pub const WRITE: u16 = 1;
    pub const DATA: u16 = 2;
    pub const ACK: u16 = 3;
    pub const ERROR: u16 = 4;

    /// The opcode that opens this message on the wire.
    pub fn op_code(&self) -> (r: u16)
        ensures
            r == self@.op_code(),
    {
        match self {
            Message::Read { .. } => Self::READ,
            Message::Write { .. } => Self::WRITE,
            Message::Data { .. } => Self::DATA,
            Message::Ack { .. } => Self::ACK,
            Message::Error { .. } => Self::ERROR,
        }
    }

    /// The bytes of this message. Encoding does not validate and never fails;
    /// [`MessageView::wf`] says which messages come back from their bytes.
    pub fn encode(&self) -> (r: Vec<u8>)
        ensures
            r@ == self@.encode(),
    {
        let mut c: Vec<u8> = Vec::new();
        push_be16(&mut c, self.op_code());
        match self {
            Message::Read { filename, mode } => {
                push_text(&mut c, filename.as_str());
                push_text(&mut c, mode.as_str());
                proof {
                    mode.lemma_text_name();
                }
                assert(c@ =~= self@.encode());
            },
            Message::Write { filename, mode } => {
                push_text(&mut c, filename.as_str());
                push_text(&mut c, mode.as_str());
                proof {
                    mode.lemma_text_name();
                }
                assert(c@ =~= self@.encode());
            },
            Message::Data { block_num, data } => {
                push_be16(&mut c, *block_num);
                c.extend_from_slice(data.as_slice());
                assert(c@ =~= self@.encode());
            },
            Message::Ack { block_num } => {
                push_be16(&mut c, *block_num);
                assert(c@ =~= self@.encode());
            },
            Message::Error { error_code, error_msg } => {
                push_be16(&mut c, *error_code);
                push_text(&mut c, error_msg.as_str());
                assert(c@ =~= self@.encode());
            },
        }
        c
    }

    /// Reads one message from a datagram. Every byte string gets an answer:
    /// the message it holds, or `InvalidMessage` where it holds none.
    pub fn decode(buff: &[u8]) -> (r: Result<Message, InvalidMessage>)
        ensures
            match r {
                Ok(m) => MessageView::decode(buff@) == Some(m@),
                Err(_) => MessageView::decode(buff@) is None,
            },
    {
        if buff.len() < 2 {
            return Err(InvalidMessage);
        }
        let op_code = read_be16(buff[0], buff[1]);
        let remainder = slice_subrange(buff, 2, buff.len());
        assert(remainder@ == buff@.skip(2));
        if op_code == Self::READ {
            match decode_rw_message(remainder) {
                Ok((filename, mode)) => Ok(Message::Read { filename, mode }),
                Err(e) => Err(e),
            }
        } else if op_code == Self::WRITE {
            match decode_rw_message(remainder) {
                Ok((filename, mode)) => Ok(Message::Write { filename, mode }),
                Err(e) => Err(e),
            }
        } else if op_code == Self::DATA {
            if remainder.len() < 2 || remainder.len() - 2 > BLOCK_SIZE {
                return Err(InvalidMessage);
            }
            let block_num = read_be16(remainder[0], remainder[1]);
            let data = slice_to_vec(slice_subrange(remainder, 2, remainder.len()));
            assert(data@ == remainder@.skip(2));
            Ok(Message::Data { block_num, data })
        } else if op_code == Self::ACK {
            if remainder.len() != 2 {
                return Err(InvalidMessage);
            }
            Ok(Message::Ack { block_num: read_be16(remainder[0], remainder[1]) })
        } else if op_code == Self::ERROR {
            match decode_error_message(remainder) {
                Ok((error_code, error_msg)) => Ok(Message::Error { error_code, error_msg }),
                Err(e) => Err(e),
            }
        } else {
            Err(InvalidMessage)
        }
    }
}

/// The outcome of decoding bytes that are not a message.
#[derive(Debug, Clone, Copy, PartialEq, Eq, Structural)]
pub struct InvalidMessage;

/// Appends the two big-endian bytes of `v`.
fn push_be16(out: &mut Vec<u8>, v: u16)
    ensures
        final(out)@ == old(out)@ + be16(v),
{
    out.push((v / 256) as u8);
    out.push((v % 256) as u8);
    assert(out@ =~= old(out)@ + be16(v));
}

/// The value of two big-endian bytes.
fn read_be16(hi: u8, lo: u8) -> (r: u16)
    ensures
        r == from_be16(hi, lo),
{
    (hi as u16) * 256 + (lo as u16)
}

/// Appends a text field: the UTF-8 bytes of `text`, then the NUL that ends it.
fn push_text(out: &mut Vec<u8>, text: &str)
    ensures
        final(out)@ == old(out)@ + encode_utf8(text@) + seq![0u8],
{
    out.extend_from_slice(text.as_bytes());
    out.push(0);
}

/// The bytes of the data message that carries `data` as block `block_num`.
pub fn encode_data(block_num: u16, data: &[u8]) -> (r: Vec<u8>)
    ensures
        r@ == (MessageView::Data { block_num, data: data@ }).encode(),
{
    let mut c: Vec<u8> = Vec::new();
    push_be16(&mut c, Message::DATA);
    push_be16(&mut c, block_num);
    c.extend_from_slice(data);
    assert(c@ =~= (MessageView::Data { block_num, data: data@ }).encode());
    c
}

/// The bytes of the acknowledgement of block `block_num`.
pub fn encode_ack(block_num: u16) -> (r: Vec<u8>)
    ensures
        r@ == (MessageView::Ack { block_num }).encode(),
{
    let mut c: Vec<u8> = Vec::new();
    push_be16(&mut c, Message::ACK);
    push_be16(&mut c, block_num);
    assert(c@ =~= (MessageView::Ack { block_num }).encode());
    c
}

/// The bytes of the error message that reports `code` with its standard text.
pub fn encode_error(code: ErrorCode) -> (r: Vec<u8>)
    ensures
        r@ == (MessageView::Error { error_code: code.code_spec(), error_msg: code.text() }).encode(),
{
    let mut c: Vec<u8> = Vec::new();
    push_be16(&mut c, Message::ERROR);
    push_be16(&mut c, code.code());
    push_text(&mut c, code.message());
    assert(c@ =~= (MessageView::Error {
        error_code: code.code_spec(),
        error_msg: code.text(),
    }).encode());
    c
}

/// Reads what follows the opcode of a read or write request: the filename
/// and the mode, each closed by one NUL, with nothing before, between or
/// after them.
pub fn decode_rw_message(bytes: &[u8]) -> (r: Result<(String, Mode), InvalidMessage>)
    ensures
        match r {
            Ok((filename, mode)) => parse_request(bytes@) == Some((filename@, mode)),
            Err(_) => parse_request(bytes@) is None,
        },
{
    let i = find_nul(bytes);
    if i == 0 || i >= bytes.len() {
        return Err(InvalidMessage);
    }
    let name = slice_subrange(bytes, 0, i);
    let rest = slice_subrange(bytes, i + 1, bytes.len());
    assert(name@ == bytes@.take(i as int));
    assert(rest@ == bytes@.skip(i + 1));
    if rest.len() == 0 || rest[rest.len() - 1] != 0 {
        return Err(InvalidMessage);
    }
    let mode_name = slice_subrange(rest, 0, rest.len() - 1);
    assert(mode_name@ == rest@.drop_last());
    match decode_text(name) {
        None => Err(InvalidMessage),
        Some(filename) => match Mode::from_bytes(mode_name) {
            None => Err(InvalidMessage),
            Some(mode) => Ok((filename, mode)),
        },
    }
}

/// Reads what follows the opcode of an error message: the code, the text,
/// and the NUL that closes the text as the last byte.
fn decode_error_message(bytes: &[u8]) -> (r: Result<(u16, String), InvalidMessage>)
    ensures
        match r {
            Ok((code, text)) => parse_error(bytes@) == Some((code, text@)),
            Err(_) => parse_error(bytes@) is None,
        },
{
    if bytes.len() < 3 {
        return Err(InvalidMessage);
    }
    let body = slice_subrange(bytes, 2, bytes.len());
    assert(body@ == bytes@.skip(2));
    let n = find_nul(body);
    if n != body.len() - 1 {
        return Err(InvalidMessage);
    }
    let text = slice_subrange(body, 0, n);
    assert(text@ == body@.take(n as int));
    match decode_text(text) {
        None => Err(InvalidMessage),
        Some(error_msg) => Ok((read_be16(bytes[0], bytes[1]), error_msg)),
    }
}

impl TryFrom<&[u8]> for Message {
    type Error = InvalidMessage;

    /// The same as [`Message::decode`].
    fn try_from(value: &[u8]) -> (r: Result<Message, InvalidMessage>)
        ensures
            match r {
                Ok(m) => MessageView::decode(value@) == Some(m@),
                Err(_) => MessageView::decode(value@) is None,
            },
    {
        Message::decode(value)
    }
}

impl TryFromSpecImpl<&[u8]> for Message {
    /// Two messages with the same content need not be the same value, so
    /// what `try_from` returns is stated by its `ensures`, over the content,
    /// and not by an equation with `try_from_spec`.
    open spec fn obeys_try_from_spec() -> bool {
        false
    }

    open spec fn try_from_spec(v: &[u8]) -> Result<Message, InvalidMessage> {
        Err(InvalidMessage)
    }
}

impl TryFrom<&[u8]> for Mode {
    type Error = InvalidMessage;

    /// The same as [`Mode::from_bytes`], with an error in place of `None`.
    fn try_from(value: &[u8]) -> (r: Result<Mode, InvalidMessage>)
        ensures
            match r {
                Ok(mode) => Mode::from_name(value@) == Some(mode),
                Err(_) => Mode::from_name(value@) is None,
            },
    {
        match Mode::from_bytes(value) {
            Some(mode) => Ok(mode),
            None => Err(InvalidMessage),
        }
    }
}

impl TryFromSpecImpl<&[u8]> for Mode {
    open spec fn obeys_try_from_spec() -> bool {
        true
    }

    open spec fn try_from_spec(v: &[u8]) -> Result<Mode, InvalidMessage> {
        match Mode::from_name(v@) {
            Some(mode) => Ok(mode),
            None => Err(InvalidMessage),
        }
    }
}

impl MessageView {
    pub open spec fn op_code(self) -> u16 {
        match self {
            MessageView::Read { .. } => 0,
            MessageView::Write { .. } => 1,
            MessageView::Data { .. } => 2,
            MessageView::Ack { .. } => 3,
            MessageView::Error { .. } => 4,
        }
    }
}

} // verus!
