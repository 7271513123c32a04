use siterm::host::{take_frames, EncodeError, TransportCodecError};
use siterm::protocol::{Method, Operation};
use siterm::terminal::{
    bytes_to_hex, format_binary, format_bytes, format_encode_error, format_hex,
    help_context_for_mode, payload_to_message, render_message_text, DeviceMessage, HelpContext,
    MessageEncoding, Mode,
};
use siterm::transport::PostcardError;

#[test]
fn hex_dump() {
    assert_eq!(format_hex(&[]), "<empty>");
    assert_eq!(format_hex(&[0x00]), "0x00");
    assert_eq!(format_hex(&[0xAB]), "0xAB");
    assert_eq!(format_hex(&[0x01, 0xFF, 0x7a]), "0x01 FF 7A");
    assert_eq!(bytes_to_hex(vec![0xDE, 0xAD, 0xBE, 0xEF]), "0xDE AD BE EF");
    assert_eq!(bytes_to_hex(Vec::new()), "<empty>");
}

#[test]
fn hex_dump_of_every_byte() {
    for byte in 0..=255u8 {
        assert_eq!(format_hex(&[byte]), format!("0x{:02X}", byte));
        assert_eq!(format_binary(&[byte]), format!("0b{:08b}", byte));
    }
}

#[test]
fn binary_dump() {
    assert_eq!(format_binary(&[]), "<empty>");
    assert_eq!(format_binary(&[0x05]), "0b00000101");
    assert_eq!(format_binary(&[0x80, 0x01, 0xFF]), "0b10000000 0b00000001 0b11111111");
}

#[test]
fn payload_is_text_or_hex() {
    assert_eq!(payload_to_message(b"rp2040: hi".to_vec()), "rp2040: hi");
    assert_eq!(payload_to_message("gr\u{fc}n \u{4e2d}".as_bytes().to_vec()), "gr\u{fc}n \u{4e2d}");
    assert_eq!(payload_to_message(Vec::new()), "");
    assert_eq!(payload_to_message(vec![0xFF, 0x00]), "0xFF 00");
    assert_eq!(payload_to_message(vec![0xC0, 0x80]), "0xC0 80");
    assert_eq!(payload_to_message(vec![0xED, 0xA0, 0x80]), "0xED A0 80");
    assert_eq!(payload_to_message(vec![0x68, 0x69, 0xE2, 0x82]), "0x68 69 E2 82");
}

#[test]
fn bytes_in_each_encoding() {
    assert_eq!(format_bytes(&[], MessageEncoding::Utf8), "<empty>");
    assert_eq!(format_bytes(&[], MessageEncoding::Hex), "<empty>");
    assert_eq!(format_bytes(&[], MessageEncoding::Binary), "<empty>");
    assert_eq!(format_bytes(b"ok", MessageEncoding::Utf8), "ok");
    assert_eq!(format_bytes(&[b'o', 0xFF, b'k'], MessageEncoding::Utf8), "o\u{fffd}k");
    assert_eq!(format_bytes(b"ok", MessageEncoding::Hex), "0x6F 6B");
    assert_eq!(format_bytes(b"o", MessageEncoding::Binary), "0b01101111");
}

#[test]
fn messages_are_rendered() {
    let text = DeviceMessage::Text("Connected".to_string());
    assert_eq!(render_message_text(&text, MessageEncoding::Hex), "Connected");
    let bytes = DeviceMessage::Bytes(vec![1, 2]);
    assert_eq!(render_message_text(&bytes, MessageEncoding::Hex), "0x01 02");
    assert_eq!(render_message_text(&bytes, MessageEncoding::Binary), "0b00000001 0b00000010");
    assert_eq!(render_message_text(&bytes, MessageEncoding::Utf8), "\u{1}\u{2}");
}

#[test]
fn encode_errors_are_explained() {
    assert_eq!(format_encode_error(EncodeError::Empty), "command is empty");
    assert_eq!(format_encode_error(EncodeError::UnknownMethod), "unknown method");
    assert_eq!(format_encode_error(EncodeError::UnknownOperation), "unknown operation");
    assert_eq!(format_encode_error(EncodeError::MissingOperation), "missing operation keyword");
    assert_eq!(format_encode_error(EncodeError::OutputTooSmall), "output buffer is too small");
    assert_eq!(
        format_encode_error(EncodeError::UnsupportedOperation {
            method: Method::Spi,
            operation: Operation::Read
        }),
        "unsupported operation Read for method Spi"
    );
    assert_eq!(
        format_encode_error(EncodeError::UnsupportedOperation {
            method: Method::Uart,
            operation: Operation::Write
        }),
        format!("unsupported operation {:?} for method {:?}", Operation::Write, Method::Uart)
    );
    assert_eq!(
        format_encode_error(EncodeError::MissingArgument { index: 0 }),
        "missing argument at position 1"
    );
    assert_eq!(
        format_encode_error(EncodeError::UnexpectedArgument { index: 2 }),
        "unexpected argument starting at position 3"
    );
    assert_eq!(
        format_encode_error(EncodeError::InvalidArgument { index: 256 }),
        "invalid argument at position 257"
    );
    assert_eq!(
        format_encode_error(EncodeError::InvalidArgument { index: usize::MAX - 1 }),
        format!("invalid argument at position {}", usize::MAX)
    );
    for method in [Method::Echo, Method::I2c, Method::Spi, Method::Uart, Method::Pwm] {
        assert_eq!(
            format_encode_error(EncodeError::UnsupportedOperation {
                method,
                operation: Operation::Read
            }),
            format!("unsupported operation Read for method {:?}", method)
        );
    }
}

#[test]
fn labels_and_titles() {
    assert_eq!(MessageEncoding::Utf8.label(), "UTF-8");
    assert_eq!(MessageEncoding::Hex.label(), "Hex");
    assert_eq!(MessageEncoding::Binary.label(), "Binary");
    assert_eq!(MessageEncoding::default(), MessageEncoding::Utf8);
    assert_eq!(HelpContext::Preconnect.title(), "Preconnect Help");
    assert_eq!(HelpContext::Connected.title(), "Connected Help");
    assert_eq!(Mode::default(), Mode::Preconnect);
    assert_eq!(help_context_for_mode(Mode::Preconnect), Some(HelpContext::Preconnect));
    assert_eq!(help_context_for_mode(Mode::Main), Some(HelpContext::Connected));
    assert_eq!(help_context_for_mode(Mode::Connecting), None);
    assert_eq!(help_context_for_mode(Mode::Error), None);
}

#[test]
fn frames_are_taken_off_the_front() {
    let mut pending = vec![0x02, b'h', b'i', 0x00, 0x01, b'!', 0x05, b'p', b'a'];
    let (payloads, failure) = take_frames(&mut pending);
    assert_eq!(payloads, vec![b"hi".to_vec(), Vec::new(), b"!".to_vec()]);
    assert_eq!(failure, None);
    assert_eq!(pending, vec![0x05, b'p', b'a']);

    pending.extend_from_slice(b"rt!");
    let (payloads, failure) = take_frames(&mut pending);
    assert_eq!(payloads, vec![b"part!".to_vec()]);
    assert_eq!(failure, None);
    assert!(pending.is_empty());

    let (payloads, failure) = take_frames(&mut pending);
    assert!(payloads.is_empty());
    assert_eq!(failure, None);
}

#[test]
fn frames_in_front_of_malformed_bytes_are_still_taken() {
    let mut pending = vec![0x01, b'a'];
    pending.extend_from_slice(&[0xFF; 11]);
    let (payloads, failure) = take_frames(&mut pending);
    assert_eq!(payloads, vec![b"a".to_vec()]);
    assert_eq!(failure, Some(TransportCodecError::Decode(PostcardError::DeserializeBadVarint)));
    assert_eq!(pending, vec![0xFF; 11]);
}
