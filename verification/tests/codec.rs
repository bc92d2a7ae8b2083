use tunnel_relay::identifier::{identifier_bytes, parse_identifier, IdentifierParseError};
use tunnel_relay::message::{
    WireFrame, WsMessage, OPCODE_BINARY, OPCODE_CLOSE, OPCODE_PONG, OPCODE_TEXT,
};

#[test]
fn text_message_becomes_text_frame_of_its_utf8_bytes() {
    let frame = WsMessage::Text("h\u{e9}llo".to_string()).to_frame();
    assert_eq!(
        frame,
        WireFrame { fin: true, opcode: OPCODE_TEXT, payload: vec![0x68, 0xc3, 0xa9, 0x6c, 0x6c, 0x6f] }
    );
}

#[test]
fn binary_message_becomes_binary_frame_of_its_bytes() {
    let frame = WsMessage::Binary(vec![0, 255, 7]).to_frame();
    assert_eq!(frame, WireFrame { fin: true, opcode: OPCODE_BINARY, payload: vec![0, 255, 7] });
}

#[test]
fn pong_message_becomes_pong_frame() {
    let frame = WsMessage::Pong(vec![1, 2, 3]).to_frame();
    assert_eq!(frame, WireFrame { fin: true, opcode: OPCODE_PONG, payload: vec![1, 2, 3] });
}

#[test]
fn close_message_carries_status_code_then_reason() {
    let frame = WsMessage::Close(1000, "bye".to_string()).to_frame();
    assert_eq!(
        frame,
        WireFrame { fin: true, opcode: OPCODE_CLOSE, payload: vec![0x03, 0xe8, b'b', b'y', b'e'] }
    );
}

#[test]
fn close_message_with_empty_reason_is_two_bytes() {
    let frame = WsMessage::Close(0xabcd, String::new()).to_frame();
    assert_eq!(frame.payload, vec![0xab, 0xcd]);
    assert_eq!(frame.opcode, 8);
}

#[test]
fn empty_text_message_has_empty_payload() {
    let frame = WsMessage::Text(String::new()).to_frame();
    assert_eq!(frame, WireFrame { fin: true, opcode: 1, payload: vec![] });
}

#[test]
fn opcode_numbers_are_those_of_the_wire() {
    assert_eq!(OPCODE_TEXT, 1);
    assert_eq!(OPCODE_BINARY, 2);
    assert_eq!(OPCODE_CLOSE, 8);
    assert_eq!(OPCODE_PONG, 10);
}

#[test]
fn identifier_bytes_are_big_endian() {
    assert_eq!(identifier_bytes(42), vec![0, 0, 0, 0, 0, 0, 0, 42]);
    assert_eq!(
        identifier_bytes(0x0102_0304_0506_0708),
        vec![1, 2, 3, 4, 5, 6, 7, 8]
    );
    assert_eq!(identifier_bytes(0), vec![0; 8]);
    assert_eq!(identifier_bytes(u64::MAX), vec![255; 8]);
}

#[test]
fn identifier_bytes_agree_with_the_standard_conversion() {
    let samples: [u64; 5] = [1, 255, 256, 0xdead_beef_0000_0001, 1 << 63];
    for id in samples {
        assert_eq!(identifier_bytes(id), id.to_be_bytes().to_vec());
    }
}

#[test]
fn parse_identifier_reads_decimal_digits() {
    assert_eq!(parse_identifier(b"42"), Ok(42));
    assert_eq!(parse_identifier(b"0"), Ok(0));
    assert_eq!(parse_identifier(b"007"), Ok(7));
    assert_eq!(parse_identifier(b"18446744073709551615"), Ok(u64::MAX));
}

#[test]
fn parse_identifier_accepts_one_leading_plus() {
    assert_eq!(parse_identifier(b"+42"), Ok(42));
    assert_eq!(parse_identifier(b"++42"), Err(IdentifierParseError));
    assert_eq!(parse_identifier(b"+"), Err(IdentifierParseError));
}

#[test]
fn parse_identifier_rejects_what_is_no_identifier() {
    assert_eq!(parse_identifier(b""), Err(IdentifierParseError));
    assert_eq!(parse_identifier(b"4x"), Err(IdentifierParseError));
    assert_eq!(parse_identifier(b"x4"), Err(IdentifierParseError));
    assert_eq!(parse_identifier(b"-1"), Err(IdentifierParseError));
    assert_eq!(parse_identifier(b" 42"), Err(IdentifierParseError));
    assert_eq!(parse_identifier(b"42 "), Err(IdentifierParseError));
    assert_eq!(parse_identifier(b"4_2"), Err(IdentifierParseError));
    assert_eq!(parse_identifier(b"obots.txt"), Err(IdentifierParseError));
}

#[test]
fn parse_identifier_rejects_overflow() {
    assert_eq!(parse_identifier(b"18446744073709551616"), Err(IdentifierParseError));
    assert_eq!(parse_identifier(b"99999999999999999999999"), Err(IdentifierParseError));
}

#[test]
fn parse_identifier_agrees_with_the_standard_parser() {
    let samples: [&str; 8] = ["1", "+1", "", "+", "12a", "18446744073709551615", "18446744073709551616", "000000000000000000000000001"];
    for text in samples {
        assert_eq!(parse_identifier(text.as_bytes()).ok(), text.parse::<u64>().ok());
    }
}
