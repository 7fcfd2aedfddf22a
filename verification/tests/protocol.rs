use shitftp::protocol::{decode_rw_message, encode_ack, encode_data, encode_error};
use shitftp::{ErrorCode, InvalidMessage, Message, Mode};

fn get_read_msg() -> Message {
    Message::Read {
        filename: "foo".to_string(),
        mode: Mode::NetAscii,
    }
}

fn get_write_msg() -> Message {
    Message::Write {
        filename: "foo".to_owned(),
        mode: Mode::NetAscii,
    }
}

// Read Message with filename: foo and mode: NetAscii
const READ_MESSAGE_U8: &[u8] = &[
    0, 0, 102, 111, 111, 0, 110, 101, 116, 97, 115, 99, 105, 105, 0,
];

// Write Message with filename: foo and mode: NetAscii
const WRITE_MESSAGE_U8: &[u8] = &[
    0, 1, 102, 111, 111, 0, 110, 101, 116, 97, 115, 99, 105, 105, 0,
];

#[test]
fn lib_test_encode_read() {
    println!(
        "test: Read Message Encoding as: {:?}",
        get_read_msg().encode()
    );
    assert_eq!(READ_MESSAGE_U8, get_read_msg().encode());
}

#[test]
fn test_decode_read() {
    // Read Message with filename: foo and mode: NetAscii
    let read_msg = Message::decode(&READ_MESSAGE_U8);
    match read_msg {
        Ok(msg) => {
            println!("Read Message decoded: {:?}", msg);
        }
        Err(e) => {
            println!("There was err: {:?}", e);
        }
    }
    assert_eq!(get_read_msg(), Message::decode(&READ_MESSAGE_U8).unwrap());
}

#[test]
fn lib_test_encode_write() {
    let obj = Message::Write {
        filename: "foo".to_owned(),
        mode: Mode::NetAscii,
    };
    let bytes = [
        0, 1, 102, 111, 111, 0, 110, 101, 116, 97, 115, 99, 105, 105, 0,
    ];
    println!("{:?}", obj);
    assert_eq!(Message::encode(&obj), bytes)
}

#[test]
fn test_decode_write() {
    let bytes = [
        0, 1, 102, 111, 111, 0, 110, 101, 116, 97, 115, 99, 105, 105, 0,
    ];
    assert_eq!(
        Message::decode(&bytes).unwrap(),
        Message::Write {
            filename: "foo".to_owned(),
            mode: Mode::NetAscii
        }
    );
}

#[test]
fn test_encode_data() {
    let msg = Message::Data {
        block_num: 0x0102,
        data: vec![9, 8, 7],
    };
    assert_eq!(msg.encode(), vec![0, 2, 1, 2, 9, 8, 7]);
    let empty = Message::Data {
        block_num: 65535,
        data: vec![],
    };
    assert_eq!(empty.encode(), vec![0, 2, 255, 255]);
}

#[test]
fn test_decode_data() {
    assert_eq!(
        Message::decode(&[0, 2, 1, 2, 9, 8, 7]),
        Ok(Message::Data {
            block_num: 258,
            data: vec![9, 8, 7]
        })
    );
    assert_eq!(
        Message::decode(&[0, 2, 0, 7]),
        Ok(Message::Data {
            block_num: 7,
            data: vec![]
        })
    );
    // no room for the block number
    assert_eq!(Message::decode(&[0, 2]), Err(InvalidMessage));
    assert_eq!(Message::decode(&[0, 2, 0]), Err(InvalidMessage));
    // a payload is at most one block
    let mut full = vec![0u8, 2, 0, 9];
    full.extend_from_slice(&[4; 512]);
    assert_eq!(
        Message::decode(&full),
        Ok(Message::Data { block_num: 9, data: vec![4; 512] })
    );
    full.push(4);
    assert_eq!(Message::decode(&full), Err(InvalidMessage));
}

#[test]
fn test_encode_ack() {
    assert_eq!(Message::Ack { block_num: 1 }.encode(), vec![0, 3, 0, 1]);
    assert_eq!(
        Message::Ack { block_num: 0xabcd }.encode(),
        vec![0, 3, 0xab, 0xcd]
    );
}

#[test]
fn test_decode_ack() {
    assert_eq!(
        Message::decode(&[0, 3, 0, 1]),
        Ok(Message::Ack { block_num: 1 })
    );
    assert_eq!(
        Message::decode(&[0, 3, 0xab, 0xcd]),
        Ok(Message::Ack { block_num: 0xabcd })
    );
    // exactly two bytes after the opcode
    assert_eq!(Message::decode(&[0, 3]), Err(InvalidMessage));
    assert_eq!(Message::decode(&[0, 3, 0]), Err(InvalidMessage));
    assert_eq!(Message::decode(&[0, 3, 0, 1, 0]), Err(InvalidMessage));
}

#[test]
fn test_encode_error() {
    let msg = Message::Error {
        error_code: 1,
        error_msg: "boo".to_string(),
    };
    assert_eq!(msg.encode(), vec![0, 4, 0, 1, 98, 111, 111, 0]);
    let bare = Message::Error {
        error_code: 0x0300,
        error_msg: String::new(),
    };
    assert_eq!(bare.encode(), vec![0, 4, 3, 0, 0]);
}

#[test]
fn test_decode_error() {
    assert_eq!(
        Message::decode(&[0, 4, 0, 1, 98, 111, 111, 0]),
        Ok(Message::Error {
            error_code: 1,
            error_msg: "boo".to_string()
        })
    );
    assert_eq!(
        Message::decode(&[0, 4, 3, 0, 0]),
        Ok(Message::Error {
            error_code: 768,
            error_msg: String::new()
        })
    );
    // no code, no terminator, a NUL inside the text, bytes after the terminator
    assert_eq!(Message::decode(&[0, 4]), Err(InvalidMessage));
    assert_eq!(Message::decode(&[0, 4, 0, 1]), Err(InvalidMessage));
    assert_eq!(Message::decode(&[0, 4, 0, 1, 98]), Err(InvalidMessage));
    assert_eq!(Message::decode(&[0, 4, 0, 1, 98, 0, 98, 0]), Err(InvalidMessage));
    assert_eq!(Message::decode(&[0, 4, 0, 1, 98, 0, 98]), Err(InvalidMessage));
    // text that is not UTF-8
    assert_eq!(Message::decode(&[0, 4, 0, 1, 0xff, 0]), Err(InvalidMessage));
}

#[test]
fn test_message_try_from_u8_slice() {
    println!("{:?}", &READ_MESSAGE_U8);
    if let Ok(a) = TryInto::<Message>::try_into(READ_MESSAGE_U8) {
        println!("Successfully decoded: {:?}", a);
        assert_eq!(a, get_read_msg());
    } else {
        assert!(false);
    }
}

#[test]
fn protocol_test_encode_read() {
    println!(
        "test: Read Message Encoding as: {:?}",
        get_read_msg().encode()
    );
    assert_eq!(READ_MESSAGE_U8, get_read_msg().encode());
}

#[test]
fn protocol_test_encode_write() {
    let msg = get_write_msg();
    let bytes = WRITE_MESSAGE_U8;
    println!("{:?}", msg);
    assert_eq!(Message::encode(&msg), bytes)
}

#[test]
fn test_read_message_try_from_u8_slice() {
    println!("{:?}", &READ_MESSAGE_U8);
    if let Ok(a) = TryInto::<Message>::try_into(READ_MESSAGE_U8) {
        println!("Successfully decoded: {:?}", a);
        assert_eq!(a, get_read_msg());
    } else {
        assert!(false);
    }
}

#[test]
fn test_write_message_try_from_u8_slice() {
    println!("{:?}", &WRITE_MESSAGE_U8);
    if let Ok(a) = TryInto::<Message>::try_into(WRITE_MESSAGE_U8) {
        println!("Successfully decoded: {:?}", a);
        assert_eq!(a, get_write_msg());
    } else {
        assert!(false);
    }
}

#[test]
fn test_data_message_try_from_u8_slice() {
    let msg: &[u8] = &[
        0, 2, 0, 1, 116, 101, 115, 116, 49, 50, 51, 10, 116, 101, 115, 116, 49, 50, 51, 10,
        116, 101, 115, 116, 49, 50, 51, 10, 116, 101, 115, 116, 49, 50, 51, 10, 116, 101, 115, 116,
        49, 50, 51, 10, 116, 101, 115, 116, 49, 50, 51, 10, 116, 101, 115, 116, 49, 50, 51, 10,
        116, 101, 115, 116, 49, 50, 51, 10, 116, 101, 115, 116, 49, 50, 51, 10, 116, 101, 115, 116,
        49, 50, 51, 10, 116, 101, 115, 116, 49, 50, 51, 10, 116, 101, 115, 116, 49, 50, 51, 10,
        116, 101, 115, 116, 49, 50, 51, 10, 116, 101, 115, 116, 49, 50, 51, 10, 116, 101, 115, 116,
        49, 50, 51, 10, 116, 101, 115, 116, 49, 50, 51, 10, 116, 101, 115, 116, 49, 50, 51, 10,
        116, 101, 115, 116, 49, 50, 51, 10, 116, 101, 115, 116, 49, 50, 51, 10, 116, 101, 115, 116,
        49, 50, 51, 10, 116, 101, 115, 116, 49, 50, 51, 10, 116, 101, 115, 116, 49, 50, 51, 10,
        116, 101, 115, 116, 49, 50, 51, 10, 116, 101, 115, 116, 49, 50, 51, 10, 116, 101, 115, 116,
        49, 50, 51, 10, 116, 101, 115, 116, 49, 50, 51, 10, 116, 101, 115, 116, 49, 50, 51, 10,
        116, 101, 115, 116, 49, 50, 51, 10, 116, 101, 115, 116, 49, 50, 51, 10, 116, 101, 115, 116,
        49, 50, 51, 10, 116, 101, 115, 116, 49, 50, 51, 10, 116, 101, 115, 116, 49, 50, 51, 10,
        116, 101, 115, 116, 49, 50, 51, 10, 116, 101, 115, 116, 49, 50, 51, 10, 116, 101, 115, 116,
        49, 50, 51, 10, 116, 101, 115, 116, 49, 50, 51, 10, 116, 101, 115, 116, 49, 50, 51, 10,
        116, 101, 115, 116, 49, 50, 51, 10, 116, 101, 115, 116, 49, 50, 51, 10, 116, 101, 115, 116,
        49, 50, 51, 10, 116, 101, 115, 116, 49, 50, 51, 10, 116, 101, 115, 116, 49, 50, 51, 10,
        116, 101, 115, 116, 49, 50, 51, 10, 116, 101, 115, 116, 49, 50, 51, 10, 116, 101, 115, 116,
        49, 50, 51, 10, 116, 101, 115, 116, 49, 50, 51, 10, 116, 101, 115, 116, 49, 50, 51, 10,
        116, 101, 115, 116, 49, 50, 51, 10, 116, 101, 115, 116, 49, 50, 51, 10, 116, 101, 115, 116,
        49, 50, 51, 10, 116, 101, 115, 116, 49, 50, 51, 10, 116, 101, 115, 116, 49, 50, 51, 10,
        116, 101, 115, 116, 49, 50, 51, 10, 116, 101, 115, 116, 49, 50, 51, 10, 116, 101, 115, 116,
        49, 50, 51, 10, 116, 101, 115, 116, 49, 50, 51, 10, 116, 101, 115, 116, 49, 50, 51, 10,
        116, 101, 115, 116, 49, 50, 51, 10, 116, 101, 115, 116, 49, 50, 51, 10, 116, 101, 115, 116,
        49, 50, 51, 10, 116, 101, 115, 116, 49, 50, 51, 10, 116, 101, 115, 116, 49, 50, 51, 10,
        116, 101, 115, 116, 49, 50, 51, 10, 116, 101, 115, 116, 49, 50, 51, 10,
    ];

    let data = TryInto::<Message>::try_into(msg);
    println!("{:?}", data);
    assert_eq!(msg.len(), 4 + 512);
    assert_eq!(
        data,
        Ok(Message::Data {
            block_num: 1,
            data: msg[4..].to_vec()
        })
    );
}

#[test]
fn test_ack_message_try_from_u8_slice() {
    let msg: &[u8] = &[0, 3, 0, 1];
    let ack = TryInto::<Message>::try_into(msg);
    println!("{:?}", ack);
    assert_eq!(ack, Ok(Message::Ack { block_num: 1 }));
}

#[test]
fn op_codes_are_zero_to_four() {
    assert_eq!(Message::READ, 0);
    assert_eq!(Message::WRITE, 1);
    assert_eq!(Message::DATA, 2);
    assert_eq!(Message::ACK, 3);
    assert_eq!(Message::ERROR, 4);
    assert_eq!(get_read_msg().op_code(), 0);
    assert_eq!(get_write_msg().op_code(), 1);
    assert_eq!(Message::Data { block_num: 1, data: vec![] }.op_code(), 2);
    assert_eq!(Message::Ack { block_num: 1 }.op_code(), 3);
    assert_eq!(
        Message::Error { error_code: 0, error_msg: String::new() }.op_code(),
        4
    );
}

#[test]
fn decode_rejects_what_is_no_message() {
    // empty, one byte
    assert_eq!(Message::decode(&[]), Err(InvalidMessage));
    assert_eq!(Message::decode(&[0]), Err(InvalidMessage));
    // unknown opcodes
    assert_eq!(Message::decode(&[0, 9]), Err(InvalidMessage));
    assert_eq!(Message::decode(&[0, 5, 0, 1]), Err(InvalidMessage));
    assert_eq!(Message::decode(&[1, 0, 102, 0, 109, 97, 105, 108, 0]), Err(InvalidMessage));
    // a read request without its second terminator
    assert_eq!(
        Message::decode(&[0, 0, 102, 111, 111, 0, 110, 101, 116, 97, 115, 99, 105, 105]),
        Err(InvalidMessage)
    );
    // a mode of "bogus"
    assert_eq!(
        Message::decode(&[0, 0, 102, 111, 111, 0, 98, 111, 103, 117, 115, 0]),
        Err(InvalidMessage)
    );
}

#[test]
fn decode_wants_exactly_two_fields_in_a_request() {
    // empty filename
    assert_eq!(
        Message::decode(&[0, 0, 0, 111, 99, 116, 101, 116, 0]),
        Err(InvalidMessage)
    );
    // empty mode
    assert_eq!(Message::decode(&[0, 1, 102, 0, 0]), Err(InvalidMessage));
    // no terminator at all, nothing after the opcode
    assert_eq!(Message::decode(&[0, 1, 102, 111, 111]), Err(InvalidMessage));
    assert_eq!(Message::decode(&[0, 0]), Err(InvalidMessage));
    // a third field
    assert_eq!(
        Message::decode(&[0, 0, 102, 0, 109, 97, 105, 108, 0, 120, 0]),
        Err(InvalidMessage)
    );
    // a doubled terminator
    assert_eq!(
        Message::decode(&[0, 0, 102, 0, 0, 109, 97, 105, 108, 0]),
        Err(InvalidMessage)
    );
    // bytes after the last terminator
    assert_eq!(
        Message::decode(&[0, 0, 102, 0, 109, 97, 105, 108, 0, 120]),
        Err(InvalidMessage)
    );
    // mode names are matched as written
    assert_eq!(
        Message::decode(&[0, 0, 102, 0, 77, 97, 105, 108, 0]),
        Err(InvalidMessage)
    );
    // a filename that is not UTF-8
    assert_eq!(
        Message::decode(&[0, 0, 0xc3, 0x28, 0, 109, 97, 105, 108, 0]),
        Err(InvalidMessage)
    );
}

#[test]
fn decode_reads_every_mode_and_unicode_names() {
    assert_eq!(
        Message::decode(&[0, 0, 102, 0, 111, 99, 116, 101, 116, 0]),
        Ok(Message::Read { filename: "f".to_string(), mode: Mode::Octet })
    );
    assert_eq!(
        Message::decode(&[0, 1, 102, 0, 109, 97, 105, 108, 0]),
        Ok(Message::Write { filename: "f".to_string(), mode: Mode::Mail })
    );
    let name = "d\u{e9}j\u{e0}/\u{4e2d}\u{6587}.txt";
    let msg = Message::Read { filename: name.to_string(), mode: Mode::Octet };
    let mut expected = vec![0u8, 0];
    expected.extend_from_slice(name.as_bytes());
    expected.push(0);
    expected.extend_from_slice(b"octet");
    expected.push(0);
    assert_eq!(msg.encode(), expected);
    assert_eq!(Message::decode(&expected), Ok(msg));
}

#[test]
fn messages_come_back_from_their_bytes() {
    let mut samples = vec![
        get_read_msg(),
        get_write_msg(),
        Message::Read { filename: "a b/c.bin".to_string(), mode: Mode::Mail },
        Message::Data { block_num: 0, data: vec![] },
        Message::Data { block_num: 513, data: vec![0, 0, 0] },
        Message::Data { block_num: 65535, data: vec![7; 512] },
        Message::Ack { block_num: 0 },
        Message::Ack { block_num: 65535 },
        Message::Error { error_code: 7, error_msg: "No such user".to_string() },
        Message::Error { error_code: 65535, error_msg: String::new() },
    ];
    for m in samples.drain(..) {
        let bytes = m.encode();
        assert_eq!(Message::decode(&bytes), Ok(m));
    }
}

#[test]
fn what_the_wire_cannot_carry_does_not_come_back() {
    let m = Message::Read { filename: "a\0b".to_string(), mode: Mode::Octet };
    assert_eq!(Message::decode(&m.encode()), Err(InvalidMessage));
    let e = Message::Error { error_code: 1, error_msg: "a\0".to_string() };
    assert_eq!(Message::decode(&e.encode()), Err(InvalidMessage));
    let n = Message::Write { filename: String::new(), mode: Mode::Octet };
    assert_eq!(Message::decode(&n.encode()), Err(InvalidMessage));
    // nor does a payload of more than a block
    let d = Message::Data { block_num: 1, data: vec![0; 513] };
    assert_eq!(d.encode().len(), 517);
    assert_eq!(Message::decode(&d.encode()), Err(InvalidMessage));
}

#[test]
fn mode_names() {
    assert_eq!(Mode::NetAscii.to_string(), "netascii");
    assert_eq!(Mode::Octet.to_string(), "octet");
    assert_eq!(Mode::Mail.to_string(), "mail");
    assert_eq!(Mode::Octet.as_str(), "octet");
    assert_eq!(Mode::from_bytes(b"netascii"), Some(Mode::NetAscii));
    assert_eq!(Mode::from_bytes(b"octet"), Some(Mode::Octet));
    assert_eq!(Mode::from_bytes(b"mail"), Some(Mode::Mail));
    assert_eq!(Mode::from_bytes(b"bogus"), None);
    assert_eq!(Mode::from_bytes(b""), None);
    assert_eq!(Mode::from_bytes(b"octet\0"), None);
    assert_eq!(Mode::from_bytes(b"NETASCII"), None);
    assert_eq!(Mode::try_from(&b"mail"[..]), Ok(Mode::Mail));
    assert_eq!(Mode::try_from(&b"male"[..]), Err(InvalidMessage));
}

#[test]
fn error_codes() {
    let all = [
        (ErrorCode::Generic, 0u16),
        (ErrorCode::FileNotFound, 1),
        (ErrorCode::AccessViolation, 2),
        (ErrorCode::DiskFull, 3),
        (ErrorCode::IllegalOperation, 4),
        (ErrorCode::UnknownTransferId, 5),
        (ErrorCode::FileExists, 6),
        (ErrorCode::NoSuchUser, 7),
    ];
    for (code, value) in all {
        assert_eq!(code.code(), value);
        assert_eq!(ErrorCode::from_code(value), Some(code));
        assert!(!code.message().contains('\0'));
    }
    assert_eq!(ErrorCode::from_code(8), None);
    assert_eq!(ErrorCode::from_code(65535), None);
    assert_eq!(ErrorCode::FileNotFound.message(), "File not found");
}

#[test]
fn short_encoders_agree_with_messages() {
    assert_eq!(
        encode_data(3, &[1, 2]),
        Message::Data { block_num: 3, data: vec![1, 2] }.encode()
    );
    assert_eq!(encode_ack(300), Message::Ack { block_num: 300 }.encode());
    assert_eq!(
        encode_error(ErrorCode::DiskFull),
        Message::Error { error_code: 3, error_msg: "Disk full".to_string() }.encode()
    );
    assert_eq!(
        decode_rw_message(b"foo\0octet\0"),
        Ok(("foo".to_string(), Mode::Octet))
    );
    assert_eq!(decode_rw_message(b"foo\0octet"), Err(InvalidMessage));
}
