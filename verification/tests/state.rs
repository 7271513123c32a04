use siterm::handlers::i2c::BusRequest;
use siterm::host::{encode_command, encode_transport_frame, try_decode_transport_frame};
use siterm::protocol::{Command, ProtocolError, Method, Operation};
use siterm::state::{Action, BusOutcome, CommandOwned, Error, StateMachine, SystemState};
use siterm::status_led::{StatusColours, StatusPattern, MAX_INSTANT_MICROS};

/// A driver without hardware: it records what the machine transmits and
/// answers bus transactions from a table.
struct Bench {
    machine: StateMachine,
    now: u64,
    sent: Vec<Vec<u8>>,
    bus: Vec<BusRequest>,
    bus_answer: BusOutcome,
}

impl Bench {
    fn new() -> Self {
        let mut machine = StateMachine::new();
        machine.reset(0);
        Bench { machine, now: 0, sent: Vec::new(), bus: Vec::new(), bus_answer: BusOutcome::Written }
    }

    fn connected() -> Self {
        let mut bench = Bench::new();
        bench.consume(b"SiTerm?\n");
        assert_eq!(bench.sent, vec![b"SiTerm v1.0".to_vec()]);
        bench.sent.clear();
        bench
    }

    fn pump(&mut self, mut action: Action) {
        loop {
            match action {
                Action::AwaitInput => return,
                Action::Transmit(bytes) => {
                    self.sent.push(bytes);
                    action = self.machine.transmit_complete(self.now);
                }
                Action::Execute(request) => {
                    self.bus.push(request);
                    action = self.machine.complete_execution(self.bus_answer.clone(), self.now);
                }
            }
        }
    }

    fn consume(&mut self, data: &[u8]) {
        let mut rest = data;
        loop {
            let (taken, action) = self.machine.consume(rest, self.now);
            rest = &rest[taken..];
            if action == Action::AwaitInput {
                assert!(rest.is_empty());
                return;
            }
            self.pump(action);
        }
    }

    fn payloads(&self) -> Vec<Vec<u8>> {
        self.sent
            .iter()
            .map(|frame| {
                let (payload, used) = try_decode_transport_frame(frame).unwrap().unwrap();
                assert_eq!(used, frame.len());
                payload
            })
            .collect()
    }
}

fn framed(line: &str) -> Vec<u8> {
    encode_transport_frame(&encode_command(line).unwrap()).unwrap()
}

#[test]
fn new_machine_is_idle() {
    let machine = StateMachine::new();
    assert_eq!(machine.state(), SystemState::Init);
    assert_eq!(machine.buffered(), 0);
    assert!(!machine.handshake_complete());
    assert_eq!(machine.handshake_timeout_remaining(0), None);
}

#[test]
fn first_advance_waits_for_the_handshake() {
    let mut machine = StateMachine::new();
    assert_eq!(machine.advance(5), Action::AwaitInput);
    assert_eq!(machine.state(), SystemState::WaitForHandshake);
    assert_eq!(machine.handshake_timeout_remaining(5), Some(3_000_000));
}

#[test]
fn handshake_phrase_opens_the_session() {
    let mut bench = Bench::new();
    bench.consume(b"SiTerm?\n");
    assert_eq!(bench.sent, vec![b"SiTerm v1.0".to_vec()]);
    assert_eq!(bench.machine.state(), SystemState::WaitForMessage);
    assert!(bench.machine.handshake_complete());
    assert_eq!(bench.machine.handshake_timeout_remaining(bench.now), None);
}

#[test]
fn handshake_is_answered_only_at_the_delimiter() {
    let mut machine = StateMachine::new();
    machine.reset(0);
    assert_eq!(machine.advance(0), Action::AwaitInput);
    for &byte in b"SiTerm?" {
        assert_eq!(machine.accept_byte(byte, 0), Action::AwaitInput);
        assert_eq!(machine.state(), SystemState::WaitForHandshake);
    }
    assert_eq!(machine.accept_byte(b'\n', 0), Action::Transmit(b"SiTerm v1.0".to_vec()));
    assert_eq!(machine.state(), SystemState::WaitForHandshake);
    assert!(!machine.handshake_complete());
    assert_eq!(machine.transmit_complete(0), Action::AwaitInput);
    assert_eq!(machine.state(), SystemState::WaitForMessage);
    assert!(machine.handshake_complete());
}

#[test]
fn handshake_is_case_sensitive() {
    for phrase in [&b"siterm?\n"[..], b"SITERM?\n", b"SiTerm\n", b"SiTerm? \n", b" SiTerm?\n", b"SiTerm?\r\n"] {
        let mut bench = Bench::new();
        bench.consume(phrase);
        assert!(bench.sent.is_empty());
        assert_eq!(bench.machine.state(), SystemState::WaitForHandshake);
        assert!(!bench.machine.handshake_complete());
    }
}

#[test]
fn handshake_recovers_after_a_wrong_line() {
    let mut bench = Bench::new();
    bench.consume(b"hello\nSiTerm?\n");
    assert_eq!(bench.sent, vec![b"SiTerm v1.0".to_vec()]);
    assert_eq!(bench.machine.state(), SystemState::WaitForMessage);
}

#[test]
fn handshake_buffer_overflow_is_silent() {
    let mut bench = Bench::new();
    bench.consume(&[b'a'; 64]);
    // The 65th byte finds the buffer full, empties it and is dropped.
    bench.consume(b"S");
    bench.consume(b"SiTerm?\n");
    assert_eq!(bench.sent, vec![b"SiTerm v1.0".to_vec()]);
    assert_eq!(bench.machine.state(), SystemState::WaitForMessage);
}

#[test]
fn handshake_that_is_not_confirmed_does_not_stand() {
    let mut machine = StateMachine::new();
    machine.reset(0);
    machine.advance(0);
    let mut last = Action::AwaitInput;
    for &byte in b"SiTerm?\n" {
        last = machine.accept_byte(byte, 0);
    }
    assert_eq!(last, Action::Transmit(b"SiTerm v1.0".to_vec()));
    // The write failed: the driver goes on without a confirmation.
    assert_eq!(machine.advance(0), Action::AwaitInput);
    assert_eq!(machine.transmit_complete(0), Action::AwaitInput);
    assert_eq!(machine.state(), SystemState::WaitForHandshake);
    assert!(!machine.handshake_complete());
}

#[test]
fn handshake_timeout_is_reported_and_rearmed() {
    let mut machine = StateMachine::new();
    machine.reset(1_000);
    assert_eq!(machine.handshake_timeout_remaining(1_000), Some(3_000_000));
    assert_eq!(machine.advance(1_000), Action::AwaitInput);
    assert_eq!(machine.handshake_timeout_remaining(2_001_000), Some(1_000_000));
    assert_eq!(machine.handshake_timeout_remaining(3_001_000), Some(0));
    assert_eq!(machine.handshake_timeout_remaining(9_000_000), Some(0));

    let action = machine.handle_handshake_timeout(3_001_000);
    assert_eq!(machine.state(), SystemState::Error(Error::Timeout));
    let expected = encode_transport_frame(b"ERR: Timeout").unwrap();
    assert_eq!(action, Action::Transmit(expected));
    assert_eq!(machine.handshake_timeout_remaining(3_001_000), None);

    assert_eq!(machine.transmit_complete(3_002_000), Action::AwaitInput);
    assert_eq!(machine.state(), SystemState::WaitForHandshake);
    assert_eq!(machine.handshake_timeout_remaining(3_002_000), Some(3_000_000));
}

#[test]
fn reads_block_no_longer_than_the_deadline_allows() {
    let mut machine = StateMachine::new();
    assert_eq!(machine.next_wait(0), 100_000);
    assert!(!machine.handshake_overdue(0));
    machine.reset(0);
    machine.advance(0);
    assert_eq!(machine.next_wait(0), 100_000);
    assert_eq!(machine.next_wait(2_900_000), 100_000);
    assert_eq!(machine.next_wait(2_900_001), 99_999);
    assert_eq!(machine.next_wait(2_999_999), 1);
    assert!(!machine.handshake_overdue(2_999_999));
    assert_eq!(machine.next_wait(3_000_000), 1);
    assert!(machine.handshake_overdue(3_000_000));
    assert!(machine.handshake_overdue(u64::MAX));

    for &byte in b"SiTerm?\n" {
        machine.accept_byte(byte, 0);
    }
    machine.transmit_complete(0);
    assert_eq!(machine.next_wait(5_000_000), 100_000);
    assert!(!machine.handshake_overdue(5_000_000));
}

#[test]
fn handshake_timeout_drops_what_was_collected() {
    let mut bench = Bench::new();
    bench.consume(b"SiTe");
    let action = bench.machine.handle_handshake_timeout(3_000_000);
    bench.pump(action);
    assert_eq!(bench.payloads(), vec![b"ERR: Timeout".to_vec()]);
    bench.sent.clear();
    bench.consume(b"rm?\n");
    assert!(bench.sent.is_empty());
    bench.consume(b"SiTerm?\n");
    assert_eq!(bench.sent, vec![b"SiTerm v1.0".to_vec()]);
}

#[test]
fn echo_is_answered_with_the_prefix() {
    let mut bench = Bench::connected();
    bench.consume(&framed("echo hi"));
    assert_eq!(bench.payloads(), vec![b"rp2040: hi".to_vec()]);
    assert_eq!(bench.sent[0], b"\x0arp2040: hi".to_vec());
    assert_eq!(bench.machine.state(), SystemState::WaitForMessage);
    assert_eq!(bench.machine.buffered(), 0);
}

#[test]
fn end_to_end_session() {
    let mut bench = Bench::new();
    bench.consume(b"SiTerm?\n");
    assert_eq!(bench.sent, vec![b"SiTerm v1.0".to_vec()]);
    bench.sent.clear();

    bench.consume(&framed("echo hi"));
    assert_eq!(bench.payloads(), vec![b"rp2040: hi".to_vec()]);
    bench.sent.clear();

    let mut chunk = framed("echo one");
    chunk.extend_from_slice(&framed("echo two"));
    bench.consume(&chunk);
    assert_eq!(bench.payloads(), vec![b"rp2040: one".to_vec(), b"rp2040: two".to_vec()]);
    assert_eq!(bench.machine.state(), SystemState::WaitForMessage);
}

#[test]
fn frames_are_reassembled_from_any_chunking() {
    let mut stream = framed("echo first message");
    stream.extend_from_slice(&framed("echo second"));
    for size in [1usize, 2, 3, 5, 8, 64] {
        let mut bench = Bench::connected();
        for chunk in stream.chunks(size) {
            bench.consume(chunk);
        }
        assert_eq!(
            bench.payloads(),
            vec![b"rp2040: first message".to_vec(), b"rp2040: second".to_vec()]
        );
        assert_eq!(bench.machine.buffered(), 0);
    }
}

#[test]
fn consume_stops_where_the_machine_asks_for_something() {
    let mut machine = StateMachine::new();
    machine.reset(0);
    let mut stream = b"SiTerm?\n".to_vec();
    stream.extend_from_slice(&framed("echo a"));
    stream.extend_from_slice(&framed("echo b"));

    let (taken, action) = machine.consume(&stream, 0);
    assert_eq!(taken, 8);
    assert_eq!(action, Action::Transmit(b"SiTerm v1.0".to_vec()));
    assert_eq!(machine.transmit_complete(0), Action::AwaitInput);

    let (again, action) = machine.consume(&stream[taken..], 0);
    assert_eq!(again, 4);
    assert_eq!(action, Action::Transmit(encode_transport_frame(b"rp2040: a").unwrap()));
    assert_eq!(machine.transmit_complete(0), Action::AwaitInput);

    let (last, action) = machine.consume(&stream[taken + again..], 0);
    assert_eq!(last, 4);
    assert_eq!(action, Action::Transmit(encode_transport_frame(b"rp2040: b").unwrap()));
    assert_eq!(machine.transmit_complete(0), Action::AwaitInput);
    assert_eq!(machine.consume(&[], 0), (0, Action::AwaitInput));
}

#[test]
fn consume_offers_an_unconfirmed_transmission_before_it_takes_bytes() {
    let mut machine = StateMachine::new();
    machine.reset(0);
    machine.consume(b"SiTerm?\n", 0);
    machine.transmit_complete(0);
    let (_, action) = machine.consume(&framed("echo a"), 0);
    let (taken, again) = machine.consume(&framed("echo b"), 0);
    assert_eq!(taken, 0);
    assert_eq!(again, action);
}

#[test]
fn partial_frame_waits_for_more() {
    let mut bench = Bench::connected();
    let frame = framed("echo hello");
    bench.consume(&frame[..5]);
    assert!(bench.sent.is_empty());
    assert_eq!(bench.machine.state(), SystemState::WaitForMessage);
    assert_eq!(bench.machine.buffered(), 5);
    bench.consume(&frame[5..]);
    assert_eq!(bench.payloads(), vec![b"rp2040: hello".to_vec()]);
}

#[test]
fn frame_buffer_overflow_raises_invalid_checksum() {
    let mut bench = Bench::connected();
    // A prefix that announces 1000 bytes, then bytes up to the capacity.
    let mut stream = vec![0xE8u8, 0x07];
    stream.extend_from_slice(&[0x41; 510]);
    bench.consume(&stream);
    assert!(bench.sent.is_empty());
    assert_eq!(bench.machine.buffered(), 512);
    assert_eq!(bench.machine.state(), SystemState::WaitForMessage);

    let action = bench.machine.accept_byte(0x41, 0);
    assert_eq!(bench.machine.state(), SystemState::Error(Error::InvalidChecksum));
    assert_eq!(bench.machine.buffered(), 0);
    assert_eq!(action, Action::Transmit(encode_transport_frame(b"ERR: InvalidChecksum").unwrap()));

    bench.pump(action);
    assert_eq!(bench.machine.state(), SystemState::WaitForMessage);
    bench.sent.clear();
    bench.consume(&framed("echo still here"));
    assert_eq!(bench.payloads(), vec![b"rp2040: still here".to_vec()]);
}

#[test]
fn malformed_prefix_discards_the_buffer() {
    let mut bench = Bench::connected();
    bench.consume(&[0xFF; 10]);
    assert_eq!(bench.payloads(), vec![b"ERR: InvalidChecksum".to_vec()]);
    assert_eq!(bench.machine.buffered(), 0);
    assert_eq!(bench.machine.state(), SystemState::WaitForMessage);
}

#[test]
fn oversized_payload_is_rejected() {
    let mut bench = Bench::connected();
    let frame = encode_transport_frame(&vec![0x01u8; 257]).unwrap();
    bench.consume(&frame);
    assert_eq!(bench.payloads(), vec![b"ERR: InvalidChecksum".to_vec()]);
    assert_eq!(bench.machine.buffered(), 0);
}

#[test]
fn unknown_command_is_reported() {
    let mut bench = Bench::connected();
    bench.consume(&encode_transport_frame(&[0xFF, 0x01]).unwrap());
    assert_eq!(bench.payloads(), vec![b"ERR: UnknownCommand".to_vec()]);
    assert_eq!(bench.machine.state(), SystemState::WaitForMessage);
}

#[test]
fn undecodable_commands_are_reported_by_kind() {
    let cases: [(&[u8], &[u8]); 6] = [
        (&[], b"ERR: InvalidChecksum"),
        (&[0x01], b"ERR: InvalidChecksum"),
        (&[0x02, 0x01, 0x10], b"ERR: InvalidChecksum"),
        (&[0x02, 0x09], b"ERR: UnknownCommand"),
        (&[0x03, 0x01], b"ERR: UnknownCommand"),
        (&[0x01, 0x01], b"ERR: UnknownCommand"),
    ];
    for (command, report) in cases {
        let mut bench = Bench::connected();
        bench.consume(&encode_transport_frame(command).unwrap());
        assert_eq!(bench.payloads(), vec![report.to_vec()]);
    }
}

#[test]
fn protocol_errors_map_to_faults() {
    let pair = (Method::I2c, Operation::Read);
    assert_eq!(StateMachine::map_protocol_error(ProtocolError::Empty), Error::InvalidChecksum);
    assert_eq!(
        StateMachine::map_protocol_error(ProtocolError::MalformedPayload {
            method: pair.0,
            operation: pair.1
        }),
        Error::InvalidChecksum
    );
    assert_eq!(
        StateMachine::map_protocol_error(ProtocolError::UnknownMethod(9)),
        Error::UnknownCommand
    );
    assert_eq!(
        StateMachine::map_protocol_error(ProtocolError::UnknownOperation(9)),
        Error::UnknownCommand
    );
    assert_eq!(
        StateMachine::map_protocol_error(ProtocolError::UnsupportedOperation {
            method: pair.0,
            operation: pair.1
        }),
        Error::UnknownCommand
    );
}

#[test]
fn echo_that_does_not_fit_reports_what_was_built() {
    let mut bench = Bench::connected();
    let mut command = vec![0x01u8, 0x02];
    command.extend_from_slice(&[b'x'; 250]);
    bench.consume(&encode_transport_frame(&command).unwrap());
    assert_eq!(bench.payloads(), vec![b"ERR: ExecutionFailed: rp2040: ".to_vec()]);
}

#[test]
fn largest_echo_fills_the_response() {
    let mut bench = Bench::connected();
    let mut command = vec![0x01u8, 0x02];
    command.extend_from_slice(&[b'y'; 248]);
    bench.consume(&encode_transport_frame(&command).unwrap());
    let payloads = bench.payloads();
    assert_eq!(payloads.len(), 1);
    assert_eq!(payloads[0].len(), 256);
    assert_eq!(&payloads[0][..8], b"rp2040: ");
    assert_eq!(bench.sent[0].len(), 258);
}

#[test]
fn bus_read_goes_to_the_driver_and_back() {
    let mut bench = Bench::connected();
    bench.bus_answer = BusOutcome::Read(vec![0xDE, 0xAD, 0xBE, 0xEF]);
    bench.consume(&encode_transport_frame(&[0x02, 0x01, 0x50, 0x10, 0x04]).unwrap());
    assert_eq!(bench.bus, vec![BusRequest::Read { address: 0x50, register: 0x10, length: 4 }]);
    assert_eq!(bench.payloads(), vec![vec![0xDE, 0xAD, 0xBE, 0xEF]]);
    assert_eq!(bench.machine.state(), SystemState::WaitForMessage);
}

#[test]
fn bus_read_of_nothing_is_refused() {
    let mut bench = Bench::connected();
    bench.consume(&encode_transport_frame(&[0x02, 0x01, 0x50, 0x10, 0x00]).unwrap());
    assert!(bench.bus.is_empty());
    assert_eq!(
        bench.payloads(),
        vec![b"ERR: ExecutionFailed: i2c error: length must be greater than zero".to_vec()]
    );
}

#[test]
fn bus_write_goes_to_the_driver() {
    let mut bench = Bench::connected();
    bench.consume(&encode_transport_frame(&[0x02, 0x02, 0x50, 0x10, 0xAA, 0xBB]).unwrap());
    assert_eq!(bench.bus, vec![BusRequest::Write { address: 0x50, bytes: vec![0x10, 0xAA, 0xBB] }]);
    assert_eq!(bench.payloads(), vec![Vec::<u8>::new()]);
    assert_eq!(bench.sent, vec![vec![0x00u8]]);
}

#[test]
fn bus_write_without_payload_is_refused() {
    let mut bench = Bench::connected();
    bench.consume(&encode_transport_frame(&[0x02, 0x02, 0x50, 0x10]).unwrap());
    assert!(bench.bus.is_empty());
    assert_eq!(
        bench.payloads(),
        vec![b"ERR: ExecutionFailed: i2c error: payload must not be empty".to_vec()]
    );
}

#[test]
fn bus_error_is_reported() {
    let mut bench = Bench::connected();
    bench.bus_answer = BusOutcome::Failed(b"Abort(NoAcknowledge)".to_vec());
    bench.consume(&encode_transport_frame(&[0x02, 0x01, 0x50, 0x10, 0x02]).unwrap());
    assert_eq!(
        bench.payloads(),
        vec![b"ERR: ExecutionFailed: i2c error: Abort(NoAcknowledge)".to_vec()]
    );
    assert_eq!(bench.machine.state(), SystemState::WaitForMessage);
}

#[test]
fn bus_error_with_a_long_description_is_not_described() {
    let mut bench = Bench::connected();
    bench.bus_answer = BusOutcome::Failed(vec![b'e'; 54]);
    bench.consume(&encode_transport_frame(&[0x02, 0x01, 0x50, 0x10, 0x02]).unwrap());
    assert_eq!(bench.payloads(), vec![b"ERR: ExecutionFailed".to_vec()]);
}

#[test]
fn bus_read_that_returns_too_much_fails_the_buffer() {
    let mut bench = Bench::connected();
    bench.bus_answer = BusOutcome::Read(vec![0x33; 257]);
    bench.consume(&encode_transport_frame(&[0x02, 0x01, 0x50, 0x10, 0x02]).unwrap());
    assert_eq!(bench.payloads(), vec![b"ERR: BufferProcessFailed".to_vec()]);
}

#[test]
fn stray_bus_report_changes_nothing() {
    let mut bench = Bench::connected();
    let action = bench.machine.complete_execution(BusOutcome::Read(vec![1, 2, 3]), 0);
    assert_eq!(action, Action::AwaitInput);
    assert_eq!(bench.machine.state(), SystemState::WaitForMessage);
}

#[test]
fn transport_overflow_raises_invalid_checksum() {
    let mut bench = Bench::connected();
    bench.consume(&framed("echo hello")[..4]);
    assert_eq!(bench.machine.buffered(), 4);
    let action = bench.machine.handle_buffer_overflow(0);
    assert_eq!(bench.machine.state(), SystemState::Error(Error::InvalidChecksum));
    assert_eq!(bench.machine.buffered(), 0);
    bench.pump(action);
    assert_eq!(bench.payloads(), vec![b"ERR: InvalidChecksum".to_vec()]);
    assert_eq!(bench.machine.state(), SystemState::WaitForMessage);
}

#[test]
fn fault_before_the_handshake_returns_to_the_handshake() {
    let mut bench = Bench::new();
    bench.now = 10;
    bench.consume(b"Si");
    bench.now = 500;
    let action = bench.machine.handle_buffer_overflow(500);
    bench.pump(action);
    assert_eq!(bench.payloads(), vec![b"ERR: InvalidChecksum".to_vec()]);
    assert_eq!(bench.machine.state(), SystemState::WaitForHandshake);
    assert_eq!(bench.machine.handshake_timeout_remaining(500), Some(3_000_000));
}

#[test]
fn unconfirmed_response_is_offered_again() {
    let mut machine = StateMachine::new();
    machine.reset(0);
    machine.advance(0);
    for &byte in b"SiTerm?\n" {
        machine.accept_byte(byte, 0);
    }
    machine.transmit_complete(0);
    let mut last = Action::AwaitInput;
    for &byte in framed("echo hi").iter() {
        last = machine.accept_byte(byte, 0);
    }
    let frame = encode_transport_frame(b"rp2040: hi").unwrap();
    assert_eq!(last, Action::Transmit(frame.clone()));
    assert_eq!(machine.state(), SystemState::SendResponse);
    // The write failed; the next poll offers the same bytes, and bytes that
    // arrive meanwhile are dropped.
    assert_eq!(machine.advance(0), Action::Transmit(frame.clone()));
    assert_eq!(machine.accept_byte(0x05, 0), Action::Transmit(frame));
    assert_eq!(machine.buffered(), 0);
    assert_eq!(machine.transmit_complete(0), Action::AwaitInput);
    assert_eq!(machine.state(), SystemState::WaitForMessage);
}

#[test]
fn unconfirmed_error_report_nests_on_the_next_try() {
    let mut bench = Bench::connected();
    let action = bench.machine.handle_buffer_overflow(0);
    assert_eq!(action, Action::Transmit(encode_transport_frame(b"ERR: InvalidChecksum").unwrap()));
    assert_eq!(
        bench.machine.advance(0),
        Action::Transmit(
            encode_transport_frame(b"ERR: InvalidChecksum: ERR: InvalidChecksum").unwrap()
        )
    );
}

#[test]
fn reset_starts_over() {
    let mut bench = Bench::connected();
    bench.consume(&framed("echo hello")[..4]);
    bench.machine.reset(77);
    assert_eq!(bench.machine.state(), SystemState::Init);
    assert_eq!(bench.machine.buffered(), 0);
    assert!(!bench.machine.handshake_complete());
    assert_eq!(bench.machine.handshake_timeout_remaining(77), Some(3_000_000));
    bench.now = 77;
    bench.consume(&framed("echo hello"));
    assert!(bench.sent.is_empty());
    assert_eq!(bench.machine.state(), SystemState::WaitForHandshake);
}

#[test]
fn status_signals_follow_the_stages() {
    let idle = StatusPattern::Solid(StatusColours::Idle);
    let handshake = StatusPattern::Blink { colour: StatusColours::Warning, period_ms: 700 };
    let success = StatusPattern::Blink { colour: StatusColours::Success, period_ms: 100 };
    let failure = StatusPattern::Blink { colour: StatusColours::Error, period_ms: 350 };
    let warning = StatusPattern::Blink { colour: StatusColours::Warning, period_ms: 600 };

    let mut machine = StateMachine::new();
    assert_eq!(machine.take_status_signal(), None);
    machine.reset(0);
    assert_eq!(machine.take_status_signal(), Some(idle));
    assert_eq!(machine.take_status_signal(), None);
    machine.advance(0);
    assert_eq!(machine.take_status_signal(), Some(handshake));
    machine.tick(10);
    assert_eq!(machine.take_status_signal(), None);

    for &byte in b"SiTerm?\n" {
        machine.accept_byte(byte, 20);
    }
    machine.transmit_complete(20);
    assert_eq!(machine.take_status_signal(), Some(idle));

    for &byte in framed("echo hi").iter() {
        machine.accept_byte(byte, 1_000);
    }
    assert_eq!(machine.state(), SystemState::SendResponse);
    assert_eq!(machine.take_status_signal(), Some(success));
    machine.transmit_complete(1_000);
    // The success pattern is held for 400 ms.
    assert_eq!(machine.take_status_signal(), None);
    machine.tick(400_999);
    assert_eq!(machine.take_status_signal(), None);
    machine.tick(401_000);
    assert_eq!(machine.take_status_signal(), Some(idle));

    machine.handle_buffer_overflow(500_000);
    assert_eq!(machine.take_status_signal(), Some(failure));
    machine.transmit_complete(500_000);
    machine.tick(1_299_999);
    assert_eq!(machine.take_status_signal(), None);
    machine.tick(1_300_000);
    assert_eq!(machine.take_status_signal(), Some(idle));

    machine.handle_handshake_timeout(2_000_000);
    assert_eq!(machine.take_status_signal(), Some(warning));
    machine.transmit_complete(2_000_000);
    machine.tick(2_499_999);
    assert_eq!(machine.take_status_signal(), None);
    machine.tick(2_500_000);
    assert_eq!(machine.take_status_signal(), Some(handshake));
}

#[test]
fn latest_instant_is_accepted() {
    let mut machine = StateMachine::new();
    machine.reset(MAX_INSTANT_MICROS);
    assert_eq!(machine.advance(MAX_INSTANT_MICROS), Action::AwaitInput);
    assert_eq!(machine.handshake_timeout_remaining(MAX_INSTANT_MICROS), Some(3_000_000));
}

#[test]
fn error_names() {
    assert_eq!(Error::InvalidChecksum.as_bytes(), b"InvalidChecksum");
    assert_eq!(Error::UnknownCommand.as_bytes(), b"UnknownCommand");
    assert_eq!(Error::Timeout.as_bytes(), b"Timeout");
    assert_eq!(Error::ExecutionFailed.as_bytes(), b"ExecutionFailed");
    assert_eq!(Error::BufferProcessFailed.as_bytes(), b"BufferProcessFailed");
    assert_eq!(Error::Timeout.as_str(), "Timeout");
}

#[test]
fn owned_command_copies_the_payload() {
    let bytes = [1u8, 2, 3];
    match CommandOwned::from_command(Command::EchoWrite { payload: &bytes }) {
        Ok(CommandOwned::EchoWrite(payload)) => assert_eq!(payload.as_slice(), &[1, 2, 3]),
        _ => panic!("unexpected variant"),
    }
    match CommandOwned::from_command(Command::I2cRead { address: 1, register: 2, length: 3 }) {
        Ok(CommandOwned::I2cRead { address, register, length }) => {
            assert_eq!((address, register, length), (1, 2, 3));
        }
        _ => panic!("unexpected variant"),
    }
    match CommandOwned::from_command(Command::I2cWrite { address: 1, register: 2, payload: &bytes }) {
        Ok(CommandOwned::I2cWrite { address, register, payload }) => {
            assert_eq!((address, register), (1, 2));
            assert_eq!(payload.as_slice(), &[1, 2, 3]);
        }
        _ => panic!("unexpected variant"),
    }
}

#[test]
fn owned_command_refuses_a_payload_beyond_the_capacity() {
    let fits = [0u8; 256];
    assert!(CommandOwned::from_command(Command::EchoWrite { payload: &fits }).is_ok());
    let long = [0u8; 257];
    assert!(matches!(
        CommandOwned::from_command(Command::EchoWrite { payload: &long }),
        Err(Error::BufferProcessFailed)
    ));
    assert!(matches!(
        CommandOwned::from_command(Command::I2cWrite { address: 0, register: 0, payload: &long }),
        Err(Error::BufferProcessFailed)
    ));
}

fn opened() -> StateMachine {
    let mut machine = StateMachine::new();
    machine.reset(0);
    let (taken, action, sent) = machine.serve(b"SiTerm?\n", 0);
    assert_eq!((taken, action), (8, Action::AwaitInput));
    assert_eq!(sent, vec![b"SiTerm v1.0".to_vec()]);
    machine
}

#[test]
fn served_handshake_is_answered_once_and_unframed() {
    let mut machine = StateMachine::new();
    machine.reset(0);
    let (taken, action, sent) = machine.serve(b"SiTerm?\n", 0);
    assert_eq!(taken, 8);
    assert_eq!(action, Action::AwaitInput);
    assert_eq!(sent, vec![b"SiTerm v1.0".to_vec()]);
    assert_eq!(machine.state(), SystemState::WaitForMessage);
    assert!(machine.handshake_complete());
    assert_eq!(machine.buffered(), 0);
    assert_eq!(machine.handshake_timeout_remaining(0), None);
}

#[test]
fn served_wrong_lines_are_dropped() {
    for line in [&b"siterm?\n"[..], b"SiTerm?\r\n", b"xSiTerm?\n", b"\n", b"SITERM?\n"] {
        let mut machine = StateMachine::new();
        machine.reset(0);
        let (taken, action, sent) = machine.serve(line, 0);
        assert_eq!(taken, line.len());
        assert_eq!(action, Action::AwaitInput);
        assert!(sent.is_empty());
        assert_eq!(machine.state(), SystemState::WaitForHandshake);
        assert!(!machine.handshake_complete());
        assert!(machine.handshake_timeout_remaining(0).is_some());
        // The line is gone: the phrase is accepted right behind it.
        let (_, _, sent) = machine.serve(b"SiTerm?\n", 0);
        assert_eq!(sent, vec![b"SiTerm v1.0".to_vec()]);
    }
}

#[test]
fn served_overflow_costs_one_report() {
    let mut machine = opened();
    // 513 bytes of which every beginning is the beginning of a frame.
    let mut stream = vec![0xE8u8, 0x07];
    stream.extend_from_slice(&[0x41; 511]);
    assert_eq!(stream.len(), 513);
    let (taken, action, sent) = machine.serve(&stream, 0);
    assert_eq!(taken, 513);
    assert_eq!(action, Action::AwaitInput);
    assert_eq!(sent, vec![encode_transport_frame(b"ERR: InvalidChecksum").unwrap()]);
    assert_eq!(machine.state(), SystemState::WaitForMessage);
    assert_eq!(machine.buffered(), 0);
}

#[test]
fn served_answers_do_not_depend_on_the_reads() {
    let mut stream = framed("echo first message");
    stream.extend_from_slice(&framed("echo second"));
    let partial = framed("echo unfinished");
    stream.extend_from_slice(&partial[..7]);

    let mut whole = opened();
    let (taken, action, expected) = whole.serve(&stream, 0);
    assert_eq!((taken, action), (stream.len(), Action::AwaitInput));
    assert_eq!(
        expected,
        vec![
            encode_transport_frame(b"rp2040: first message").unwrap(),
            encode_transport_frame(b"rp2040: second").unwrap(),
        ]
    );
    assert_eq!(whole.buffered(), 7);

    for size in [1usize, 2, 3, 5, 8, 21, 64, 1000] {
        let mut machine = opened();
        let mut sent: Vec<Vec<u8>> = Vec::new();
        for chunk in stream.chunks(size) {
            let (taken, action, mut part) = machine.serve(chunk, 0);
            assert_eq!((taken, action), (chunk.len(), Action::AwaitInput));
            sent.append(&mut part);
        }
        assert_eq!(sent, expected);
        assert_eq!(machine.state(), whole.state());
        assert_eq!(machine.buffered(), whole.buffered());
        // Both go on alike.
        let (_, _, rest) = machine.serve(&partial[7..], 0);
        assert_eq!(rest, vec![encode_transport_frame(b"rp2040: unfinished").unwrap()]);
    }
}

#[test]
fn serving_stops_at_a_bus_transaction() {
    let mut machine = opened();
    let mut stream = encode_transport_frame(&encode_command("i2c read 0x50 0x10 2").unwrap()).unwrap();
    let first = stream.len();
    stream.extend_from_slice(&framed("echo next"));
    let (taken, action, sent) = machine.serve(&stream, 0);
    assert_eq!(taken, first);
    assert_eq!(
        action,
        Action::Execute(BusRequest::Read { address: 0x50, register: 0x10, length: 2 })
    );
    assert!(sent.is_empty());
    assert_eq!(
        machine.complete_execution(BusOutcome::Read(vec![7, 9]), 0),
        Action::Transmit(encode_transport_frame(&[7, 9]).unwrap())
    );
    let (taken, action, sent) = machine.serve(&stream[first..], 0);
    assert_eq!((taken, action), (stream.len() - first, Action::AwaitInput));
    assert_eq!(
        sent,
        vec![
            encode_transport_frame(&[7, 9]).unwrap(),
            encode_transport_frame(b"rp2040: next").unwrap(),
        ]
    );
}

#[test]
fn host_commands_reach_the_bus() {
    let mut bench = Bench::connected();
    bench.bus_answer = BusOutcome::Read(vec![1, 2, 3, 4]);
    bench.consume(&framed("i2c read 0x80 0x11 4"));
    assert_eq!(bench.bus, vec![BusRequest::Read { address: 0x80, register: 0x11, length: 4 }]);
    assert_eq!(bench.payloads(), vec![vec![1, 2, 3, 4]]);

    let mut bench = Bench::connected();
    bench.consume(&framed("i2c write 0x50 0x01 0xAA"));
    assert_eq!(bench.bus, vec![BusRequest::Write { address: 0x50, bytes: vec![0x01, 0xAA] }]);
}
