use siterm::protocol::{
    command_dictionary, decode_command, handshake_command, handshake_delimiter,
    handshake_response, supports, Command, Method, Operation, ProtocolError, HANDSHAKE_COMMAND,
    HANDSHAKE_DELIMITER, HANDSHAKE_RESPONSE, HANDSHAKE_TIMEOUT_MICROS,
};

#[test]
fn decode_echo() {
    let payload = [Method::Echo.as_byte(), Operation::Write.as_byte(), 0xAA, 0xBB];
    let command = decode_command(&payload).unwrap();

    match command {
        Command::EchoWrite { payload: echo_payload } => assert_eq!(echo_payload, &[0xAA, 0xBB]),
        _ => panic!("unexpected variant"),
    }
}

#[test]
fn decode_i2c_read() {
    let payload = [Method::I2c.as_byte(), Operation::Read.as_byte(), 0x80, 0x11, 0x04];
    let command = decode_command(&payload).unwrap();

    match command {
        Command::I2cRead { address, register, length } => {
            assert_eq!(address, 0x80);
            assert_eq!(register, 0x11);
            assert_eq!(length, 0x04);
        }
        _ => panic!("unexpected variant"),
    }
}

#[test]
fn decode_unknown_method() {
    let payload = [0xFF];
    let err = decode_command(&payload).unwrap_err();
    assert!(matches!(err, ProtocolError::UnknownMethod(0xFF)));
}

#[test]
fn decode_unknown_method_with_operation() {
    let err = decode_command(&[0xFF, 0x01]).unwrap_err();
    assert_eq!(err, ProtocolError::UnknownMethod(0xFF));
}

#[test]
fn decode_empty_and_lone_method() {
    assert_eq!(decode_command(&[]).unwrap_err(), ProtocolError::Empty);
    assert_eq!(decode_command(&[0x01]).unwrap_err(), ProtocolError::Empty);
}

#[test]
fn decode_unknown_operation() {
    assert_eq!(decode_command(&[0x02, 0x07]).unwrap_err(), ProtocolError::UnknownOperation(0x07));
    assert_eq!(decode_command(&[0x02, 0x00]).unwrap_err(), ProtocolError::UnknownOperation(0x00));
}

#[test]
fn decode_unsupported_pairs() {
    assert_eq!(
        decode_command(&[0x01, 0x01, 0x00]).unwrap_err(),
        ProtocolError::UnsupportedOperation { method: Method::Echo, operation: Operation::Read }
    );
    assert_eq!(
        decode_command(&[0x03, 0x02]).unwrap_err(),
        ProtocolError::UnsupportedOperation { method: Method::Spi, operation: Operation::Write }
    );
    assert_eq!(
        decode_command(&[0x05, 0x01]).unwrap_err(),
        ProtocolError::UnsupportedOperation { method: Method::Pwm, operation: Operation::Read }
    );
}

#[test]
fn decode_i2c_read_needs_three_operands() {
    assert_eq!(
        decode_command(&[0x02, 0x01, 0x80, 0x11]).unwrap_err(),
        ProtocolError::MalformedPayload { method: Method::I2c, operation: Operation::Read }
    );
    assert_eq!(
        decode_command(&[0x02, 0x01, 0x80, 0x11, 0x04, 0x99]).unwrap(),
        Command::I2cRead { address: 0x80, register: 0x11, length: 0x04 }
    );
}

#[test]
fn decode_i2c_write_takes_the_rest_as_payload() {
    assert_eq!(
        decode_command(&[0x02, 0x02, 0x50, 0x01, 0xAA, 0xBB]).unwrap(),
        Command::I2cWrite { address: 0x50, register: 0x01, payload: &[0xAA, 0xBB] }
    );
    assert_eq!(
        decode_command(&[0x02, 0x02, 0x50, 0x01]).unwrap(),
        Command::I2cWrite { address: 0x50, register: 0x01, payload: &[] }
    );
    assert_eq!(
        decode_command(&[0x02, 0x02, 0x50]).unwrap_err(),
        ProtocolError::MalformedPayload { method: Method::I2c, operation: Operation::Write }
    );
}

#[test]
fn decode_echo_without_payload() {
    assert_eq!(decode_command(&[0x01, 0x02]).unwrap(), Command::EchoWrite { payload: &[] });
}

#[test]
fn method_bytes_round_trip() {
    let all = [Method::Echo, Method::I2c, Method::Spi, Method::Uart, Method::Pwm];
    let bytes = [0x01u8, 0x02, 0x03, 0x04, 0x05];
    for (method, byte) in all.iter().zip(bytes.iter()) {
        assert_eq!(method.as_byte(), *byte);
        assert_eq!(Method::from_byte(*byte), Some(*method));
    }
    assert_eq!(Method::from_byte(0x00), None);
    assert_eq!(Method::from_byte(0x06), None);
    assert_eq!(Method::from_byte(0xFF), None);
}

#[test]
fn operation_bytes_round_trip() {
    assert_eq!(Operation::Read.as_byte(), 0x01);
    assert_eq!(Operation::Write.as_byte(), 0x02);
    assert_eq!(Operation::from_byte(0x01), Some(Operation::Read));
    assert_eq!(Operation::from_byte(0x02), Some(Operation::Write));
    assert_eq!(Operation::from_byte(0x00), None);
    assert_eq!(Operation::from_byte(0x03), None);
}

#[test]
fn dictionary_holds_the_supported_pairs() {
    let entries = command_dictionary();
    assert_eq!(entries.len(), 3);
    assert!(supports(Method::Echo, Operation::Write));
    assert!(supports(Method::I2c, Operation::Read));
    assert!(supports(Method::I2c, Operation::Write));
    assert!(!supports(Method::Echo, Operation::Read));
    assert!(!supports(Method::Spi, Operation::Read));
    assert!(!supports(Method::Uart, Operation::Write));
    assert!(!supports(Method::Pwm, Operation::Write));
}

#[test]
fn handshake_constants_as_bytes() {
    assert_eq!(handshake_command(), b"SiTerm?");
    assert_eq!(handshake_response(), b"SiTerm v1.0");
    assert_eq!(handshake_delimiter(), b"\n");
    assert_eq!(HANDSHAKE_COMMAND, "SiTerm?");
    assert_eq!(HANDSHAKE_RESPONSE, "SiTerm v1.0");
    assert_eq!(HANDSHAKE_DELIMITER, "\n");
    assert_eq!(HANDSHAKE_TIMEOUT_MICROS, 3_000_000);
}
