use siterm::buffers::{
    drop_prefix, FrameBuffer, PayloadBuffer, FRAME_BUFFER_SIZE, HANDSHAKE_BUFFER_SIZE,
    MAX_COMMAND_SIZE,
};
use siterm::bytes::{has_prefix, has_suffix, slices_equal};
use siterm::handlers::i2c::{
    complete_read, prepare_read, prepare_write, report_bus_error, BusRequest,
};
use siterm::handlers::{echo, execute_command, uart};
use siterm::state::{CommandOwned, Error};
use siterm::status_led::{
    blink_half_period, next_phase, nonzero_duration, pulse_intensity, pulse_step,
    pulse_step_duration, scale_channel, scale_rgb, state_pattern, Rgb, StatusColours,
    StatusPattern, StatusTracker,
};
use siterm::state::SystemState;
use siterm::usb_transport::{
    next_packet_end, retry_deadline, send_framed_payload, write_packet_with_retry, EndpointError,
    WriteStep, ENCODED_FRAME_BUFFER_SIZE, READ_BUFFER_SIZE, WRITE_RETRY_TIMEOUT_MS,
};

fn frame_buffer(bytes: &[u8]) -> FrameBuffer {
    FrameBuffer::from_slice(bytes).unwrap()
}

fn payload_buffer(bytes: &[u8]) -> PayloadBuffer {
    PayloadBuffer::from_slice(bytes).unwrap()
}

#[test]
fn capacities() {
    assert_eq!(HANDSHAKE_BUFFER_SIZE, 64);
    assert_eq!(FRAME_BUFFER_SIZE, 512);
    assert_eq!(MAX_COMMAND_SIZE, 256);
    assert_eq!(READ_BUFFER_SIZE, 64);
    assert_eq!(ENCODED_FRAME_BUFFER_SIZE, 320);
    assert_eq!(WRITE_RETRY_TIMEOUT_MS, 250);
}

#[test]
fn drop_prefix_moves_the_rest_to_the_front() {
    let mut buffer = frame_buffer(&[1, 2, 3, 4, 5]);
    drop_prefix(&mut buffer, 2);
    assert_eq!(buffer.as_slice(), &[3, 4, 5]);
    drop_prefix(&mut buffer, 0);
    assert_eq!(buffer.as_slice(), &[3, 4, 5]);
    drop_prefix(&mut buffer, 1);
    assert_eq!(buffer.as_slice(), &[4, 5]);
}

#[test]
fn drop_prefix_of_everything_empties() {
    let mut buffer = frame_buffer(&[1, 2, 3]);
    drop_prefix(&mut buffer, 3);
    assert!(buffer.is_empty());
    let mut buffer = frame_buffer(&[1, 2, 3]);
    drop_prefix(&mut buffer, 100);
    assert!(buffer.is_empty());
    let mut buffer = frame_buffer(&[]);
    drop_prefix(&mut buffer, 0);
    assert!(buffer.is_empty());
}

#[test]
fn drop_prefix_on_a_full_buffer() {
    let bytes: Vec<u8> = (0..512u32).map(|i| (i % 251) as u8).collect();
    let mut buffer = frame_buffer(&bytes);
    drop_prefix(&mut buffer, 500);
    assert_eq!(buffer.as_slice(), &bytes[500..]);
}

#[test]
fn slice_comparisons() {
    assert!(slices_equal(b"abc", b"abc"));
    assert!(slices_equal(b"", b""));
    assert!(!slices_equal(b"abc", b"abd"));
    assert!(!slices_equal(b"abc", b"ab"));
    assert!(has_suffix(b"line\n", b"\n"));
    assert!(has_suffix(b"line\n", b""));
    assert!(!has_suffix(b"line", b"\n"));
    assert!(!has_suffix(b"", b"\n"));
    assert!(has_prefix(b"0x10", b"0x"));
    assert!(!has_prefix(b"0", b"0x"));
    assert!(!has_prefix(b"1x10", b"0x"));
}

#[test]
fn echo_appends_prefix_and_payload() {
    let mut response = payload_buffer(b"");
    assert_eq!(echo::execute(b"hi", &mut response), Ok(()));
    assert_eq!(response.as_slice(), b"rp2040: hi");
    assert_eq!(&echo::ECHO_PREFIX, b"rp2040: ");

    let mut response = payload_buffer(b">");
    assert_eq!(echo::execute(b"", &mut response), Ok(()));
    assert_eq!(response.as_slice(), b">rp2040: ");
}

#[test]
fn echo_fails_when_the_response_is_full() {
    let mut response = payload_buffer(&[b'x'; 249]);
    assert_eq!(echo::execute(b"hi", &mut response), Err(Error::ExecutionFailed));
    assert_eq!(response.len(), 249);

    let mut response = payload_buffer(&[b'x'; 240]);
    assert_eq!(echo::execute(&[b'y'; 9], &mut response), Err(Error::ExecutionFailed));
    assert_eq!(response.len(), 248);
    assert_eq!(&response[240..], b"rp2040: ");

    let mut response = payload_buffer(&[b'x'; 240]);
    assert_eq!(echo::execute(&[b'y'; 8], &mut response), Ok(()));
    assert_eq!(response.len(), 256);
}

#[test]
fn uart_is_not_implemented() {
    let mut response = payload_buffer(b"kept");
    assert_eq!(uart::execute(&mut response), Err(Error::ExecutionFailed));
    assert_eq!(response.as_slice(), b"kept");
}

#[test]
fn read_is_checked_before_the_bus() {
    let mut response = payload_buffer(b"");
    assert_eq!(prepare_read(4, &mut response), Ok(()));
    assert!(response.is_empty());
    assert_eq!(prepare_read(255, &mut response), Ok(()));

    assert_eq!(prepare_read(0, &mut response), Err(Error::ExecutionFailed));
    assert_eq!(response.as_slice(), b"i2c error: length must be greater than zero");

    let mut response = payload_buffer(&[0u8; 200]);
    assert_eq!(prepare_read(56, &mut response), Ok(()));
    assert_eq!(prepare_read(57, &mut response), Err(Error::ExecutionFailed));
    assert_eq!(response.as_slice(), b"i2c error: length exceeds buffer");
}

#[test]
fn read_result_is_appended() {
    let mut response = payload_buffer(b"ab");
    assert_eq!(complete_read(&[1, 2], &mut response), Ok(()));
    assert_eq!(response.as_slice(), &[b'a', b'b', 1, 2]);
    assert_eq!(complete_read(&[0; 253], &mut response), Err(Error::BufferProcessFailed));
    assert_eq!(response.len(), 4);
    assert_eq!(complete_read(&[0; 252], &mut response), Ok(()));
}

#[test]
fn bus_errors_are_described_up_to_64_bytes() {
    let mut response = payload_buffer(b"partial");
    assert_eq!(report_bus_error(b"Abort(Other(3))", &mut response), Ok(()));
    assert_eq!(response.as_slice(), b"i2c error: Abort(Other(3))");

    let mut response = payload_buffer(b"partial");
    assert_eq!(report_bus_error(&[b'x'; 53], &mut response), Ok(()));
    assert_eq!(response.len(), 64);

    let mut response = payload_buffer(b"partial");
    assert_eq!(report_bus_error(&[b'x'; 54], &mut response), Err(Error::BufferProcessFailed));
    assert_eq!(response.as_slice(), b"partial");
}

#[test]
fn write_is_checked_and_laid_out() {
    let mut response = payload_buffer(b"");
    assert_eq!(prepare_write(0x10, &[0xAA, 0xBB], &mut response), Ok(vec![0x10, 0xAA, 0xBB]));
    assert!(response.is_empty());
    assert_eq!(prepare_write(0x10, &[0x01; 255], &mut response).unwrap().len(), 256);

    assert_eq!(prepare_write(0x10, &[], &mut response), Err(Error::ExecutionFailed));
    assert_eq!(response.as_slice(), b"i2c error: payload must not be empty");

    assert_eq!(prepare_write(0x10, &[0x01; 256], &mut response), Err(Error::ExecutionFailed));
    assert_eq!(response.as_slice(), b"i2c error: payload too large");
}

#[test]
fn commands_are_dispatched() {
    let mut response = payload_buffer(b"");
    let echo = CommandOwned::EchoWrite(payload_buffer(b"yo"));
    assert_eq!(execute_command(echo, &mut response), Ok(None));
    assert_eq!(response.as_slice(), b"rp2040: yo");

    let mut response = payload_buffer(b"");
    let read = CommandOwned::I2cRead { address: 1, register: 2, length: 3 };
    assert_eq!(
        execute_command(read, &mut response),
        Ok(Some(BusRequest::Read { address: 1, register: 2, length: 3 }))
    );

    let write = CommandOwned::I2cWrite { address: 1, register: 2, payload: payload_buffer(&[9]) };
    assert_eq!(
        execute_command(write, &mut response),
        Ok(Some(BusRequest::Write { address: 1, bytes: vec![2, 9] }))
    );

    let read = CommandOwned::I2cRead { address: 1, register: 2, length: 0 };
    assert_eq!(execute_command(read, &mut response), Err(Error::ExecutionFailed));
}

#[test]
fn framed_payload_is_the_envelope() {
    assert_eq!(send_framed_payload(b"hi"), vec![0x02, b'h', b'i']);
    assert_eq!(send_framed_payload(b""), vec![0x00]);
    let long = vec![0x77u8; 256];
    let frame = send_framed_payload(&long);
    assert_eq!(&frame[..2], &[0x80, 0x02]);
    assert_eq!(&frame[2..], &long[..]);
}

#[test]
fn framed_payload_beyond_the_encode_buffer_is_not_sent() {
    assert_eq!(send_framed_payload(&vec![1u8; 318]).len(), 320);
    assert!(send_framed_payload(&vec![1u8; 319]).is_empty());
    assert!(send_framed_payload(&vec![1u8; 1000]).is_empty());
}

#[test]
fn packets_are_at_most_64_bytes() {
    assert_eq!(next_packet_end(0, 0), 0);
    assert_eq!(next_packet_end(0, 11), 11);
    assert_eq!(next_packet_end(0, 64), 64);
    assert_eq!(next_packet_end(0, 65), 64);
    assert_eq!(next_packet_end(64, 65), 65);
    assert_eq!(next_packet_end(0, 258), 64);
    assert_eq!(next_packet_end(192, 258), 256);
    assert_eq!(next_packet_end(256, 258), 258);
    assert_eq!(next_packet_end(usize::MAX - 3, usize::MAX), usize::MAX);
}

#[test]
fn writes_are_retried_until_the_deadline() {
    assert_eq!(retry_deadline(1_000), 251_000);
    let full = Err(EndpointError::BufferOverflow);
    assert_eq!(write_packet_with_retry(Ok(()), 0, 250_000), WriteStep::Done);
    assert_eq!(write_packet_with_retry(Ok(()), 900_000, 250_000), WriteStep::Done);
    assert_eq!(write_packet_with_retry(full, 0, 250_000), WriteStep::Retry);
    assert_eq!(write_packet_with_retry(full, 249_999, 250_000), WriteStep::Retry);
    assert_eq!(
        write_packet_with_retry(full, 250_000, 250_000),
        WriteStep::GiveUp(EndpointError::BufferOverflow)
    );
    assert_eq!(
        write_packet_with_retry(Err(EndpointError::Disabled), 0, 250_000),
        WriteStep::GiveUp(EndpointError::Disabled)
    );
}

#[test]
fn colours() {
    assert_eq!(StatusColours::Error.as_rgb(), Rgb { r: 0, g: 150, b: 0 });
    assert_eq!(StatusColours::Warning.as_rgb(), Rgb { r: 80, g: 120, b: 0 });
    assert_eq!(StatusColours::Communicating.as_rgb(), Rgb { r: 0, g: 40, b: 80 });
    assert_eq!(StatusColours::Success.as_rgb(), Rgb { r: 120, g: 0, b: 0 });
    assert_eq!(StatusColours::Idle.as_rgb(), Rgb { r: 0, g: 0, b: 60 });
}

#[test]
fn pulse_brightness() {
    assert_eq!(pulse_intensity(0), 0);
    assert_eq!(pulse_intensity(1), 17);
    assert_eq!(pulse_intensity(8), 136);
    assert_eq!(pulse_intensity(15), 255);
    assert_eq!(pulse_intensity(16), 255);
    assert_eq!(pulse_intensity(255), 255);
    assert_eq!(scale_channel(150, 255), 150);
    assert_eq!(scale_channel(150, 0), 0);
    assert_eq!(scale_channel(150, 128), 75);
    assert_eq!(scale_channel(255, 254), 254);
    assert_eq!(scale_channel(80, 17), 5);
    assert_eq!(scale_rgb(Rgb { r: 80, g: 120, b: 0 }, 136), Rgb { r: 42, g: 64, b: 0 });
}

#[test]
fn pulse_goes_up_and_down() {
    let steps: Vec<u8> = (0..30).map(pulse_step).collect();
    let mut expected: Vec<u8> = (0..16).collect();
    expected.extend((1..15).rev());
    assert_eq!(steps, expected);
    assert_eq!(pulse_step(30), 0);
    assert_eq!(pulse_step(1000), 0);
    assert_eq!(next_phase(0), 1);
    assert_eq!(next_phase(28), 29);
    assert_eq!(next_phase(29), 0);
}

#[test]
fn waiting_times() {
    assert_eq!(nonzero_duration(0), 1);
    assert_eq!(nonzero_duration(5), 5);
    assert_eq!(blink_half_period(700), 350_000);
    assert_eq!(blink_half_period(0), 1);
    assert_eq!(pulse_step_duration(800), 26_666);
    assert_eq!(pulse_step_duration(0), 1);
}

#[test]
fn patterns_of_the_stages() {
    let idle = StatusPattern::Solid(StatusColours::Idle);
    assert_eq!(state_pattern(SystemState::Init), (idle, None));
    assert_eq!(state_pattern(SystemState::WaitForMessage), (idle, None));
    assert_eq!(
        state_pattern(SystemState::WaitForHandshake),
        (StatusPattern::Blink { colour: StatusColours::Warning, period_ms: 700 }, None)
    );
    let pulse = StatusPattern::Pulse { colour: StatusColours::Communicating, period_ms: 800 };
    assert_eq!(state_pattern(SystemState::ParseCommand), (pulse, None));
    assert_eq!(state_pattern(SystemState::ExecuteAction), (pulse, None));
    assert_eq!(
        state_pattern(SystemState::SendResponse),
        (StatusPattern::Blink { colour: StatusColours::Success, period_ms: 100 }, Some(400_000))
    );
    assert_eq!(
        state_pattern(SystemState::Error(Error::Timeout)),
        (StatusPattern::Blink { colour: StatusColours::Warning, period_ms: 600 }, Some(500_000))
    );
    for error in [
        Error::InvalidChecksum,
        Error::UnknownCommand,
        Error::ExecutionFailed,
        Error::BufferProcessFailed,
    ] {
        assert_eq!(
            state_pattern(SystemState::Error(error)),
            (StatusPattern::Blink { colour: StatusColours::Error, period_ms: 350 }, Some(800_000))
        );
    }
}

#[test]
fn tracker_holds_a_latched_pattern() {
    let idle = StatusPattern::Solid(StatusColours::Idle);
    let success = StatusPattern::Blink { colour: StatusColours::Success, period_ms: 100 };
    let mut tracker = StatusTracker::new();
    tracker.refresh(SystemState::WaitForMessage, 0);
    assert_eq!(tracker.take_signal(), Some(idle));
    tracker.refresh(SystemState::WaitForMessage, 5);
    assert_eq!(tracker.take_signal(), None);
    tracker.refresh(SystemState::SendResponse, 10);
    assert_eq!(tracker.signal, Some(success));
    assert_eq!(tracker.latched.map(|latch| latch.until), Some(400_010));
    tracker.refresh(SystemState::WaitForMessage, 20);
    assert_eq!(tracker.take_signal(), Some(success));
    assert_eq!(tracker.last, Some(success));
    tracker.refresh(SystemState::WaitForMessage, 400_010);
    assert_eq!(tracker.take_signal(), Some(idle));
    assert_eq!(tracker.latched, None);
}

#[test]
fn tracker_mailbox_keeps_the_latest() {
    let mut tracker = StatusTracker::new();
    tracker.refresh(SystemState::Init, 0);
    tracker.refresh(SystemState::WaitForHandshake, 0);
    assert_eq!(
        tracker.take_signal(),
        Some(StatusPattern::Blink { colour: StatusColours::Warning, period_ms: 700 })
    );
    assert_eq!(tracker.take_signal(), None);
}
