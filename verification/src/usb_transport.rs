//! What goes out over the serial transport, and when a write is given up.
//!
//! The writes themselves are the driver's: this module prepares the bytes,
//! cuts them into packets, and decides after each attempt whether the driver
//! is done, has to wait and try again, or has to give up.

use vstd::prelude::*;

use crate::transport::{encode_into, frame_encoding, length_prefix};

verus! {

/// The largest packet of the transport.
pub const READ_BUFFER_SIZE: usize = 64;

/// The longest envelope that is sent.
pub const ENCODED_FRAME_BUFFER_SIZE: usize = 320;

/// How long a full transmit buffer is waited for, in milliseconds.
pub const WRITE_RETRY_TIMEOUT_MS: u64 = 250;

/// The pause between two attempts at a write, in milliseconds.
pub const WRITE_RETRY_INTERVAL_MS: u64 = 10;

/// How a write on the transport can fail.
#[derive(Debug, Clone, Copy, PartialEq, Eq, Structural)]
pub enum EndpointError {
    /// The transmit buffer is full.
    BufferOverflow,
    /// The endpoint is disabled: the host is gone.
    Disabled,
}

/// What the driver does after an attempt at a write.
#[derive(Debug, Clone, Copy, PartialEq, Eq, Structural)]
pub enum WriteStep {
    /// The packet is out.
    Done,
    /// Wait [`WRITE_RETRY_INTERVAL_MS`], then write the packet again.
    Retry,
    /// Give up with this error.
    GiveUp(EndpointError),
}

/// The bytes that are sent for a payload: its envelope, or nothing at all
/// when the envelope is longer than [`ENCODED_FRAME_BUFFER_SIZE`].
pub open spec fn outgoing(payload: Seq<u8>) -> Seq<u8> {
    if frame_encoding(payload).len() <= 320 {
        frame_encoding(payload)
    } else {
        Seq::<u8>::empty()
    }
}

/// A payload of at most 256 bytes is always sent: its envelope has at most
/// two bytes of prefix.
pub proof fn lemma_short_payload_is_sent(payload: Seq<u8>)
    requires
        payload.len() <= 256,
    ensures
        outgoing(payload) == frame_encoding(payload),
        frame_encoding(payload).len() <= payload.len() + 2,
{
    let n = payload.len();
    if n >= 128 {
        assert(length_prefix(n / 128).len() == 1);
    }
}

/// What follows an attempt at a write, made at `now` under `deadline`.
pub open spec fn after_attempt(
    attempt: Result<(), EndpointError>,
    now: u64,
    deadline: u64,
) -> WriteStep {
    match attempt {
        Ok(_) => WriteStep::Done,
        Err(EndpointError::BufferOverflow) => if now >= deadline {
            WriteStep::GiveUp(EndpointError::BufferOverflow)
        } else {
            WriteStep::Retry
        },
        Err(EndpointError::Disabled) => WriteStep::GiveUp(EndpointError::Disabled),
    }
}

/// The instant, in microseconds, after which a write that started at
/// `start` is no longer retried.
pub fn retry_deadline(start: u64) -> (deadline: u64)
    requires
        start <= u64::MAX - 250_000,
    ensures
        deadline == start + WRITE_RETRY_TIMEOUT_MS * 1000,
{
    start + WRITE_RETRY_TIMEOUT_MS * 1000
}

/// Decides what follows an attempt at a write.
///
/// A packet that went out ends the write. A full transmit buffer is retried
/// until `now` has reached `deadline`, then given up as `BufferOverflow`.
/// Every other failure is given up at once.
pub fn write_packet_with_retry(
    attempt: Result<(), EndpointError>,
    now: u64,
    deadline: u64,
) -> (step: WriteStep)
    ensures
        step == after_attempt(attempt, now, deadline),
{
    match attempt {
        Ok(()) => WriteStep::Done,
        Err(EndpointError::BufferOverflow) => {
            if now >= deadline {
                WriteStep::GiveUp(EndpointError::BufferOverflow)
            } else {
                WriteStep::Retry
            }
        },
        Err(error) => WriteStep::GiveUp(error),
    }
}

/// The bytes to send for `payload`: its envelope, or nothing when the
/// envelope does not fit the encode buffer.
pub fn send_framed_payload(payload: &[u8]) -> (bytes: Vec<u8>)
    ensures
        bytes@ == outgoing(payload@),
{
    let mut frame_buf: [u8; 320] = [0u8; 320];
    let len = match encode_into(payload, &mut frame_buf) {
        Ok(len) => len,
        Err(_) => {
            return Vec::new();
        },
    };
    let mut bytes: Vec<u8> = Vec::new();
    let mut index: usize = 0;
    while index < len
        invariant
            index <= len <= 320,
            len == frame_encoding(payload@).len(),
            frame_buf@.subrange(0, len as int) == frame_encoding(payload@),
            bytes@ == frame_buf@.subrange(0, index as int),
        decreases len - index,
    {
        bytes.push(frame_buf[index]);
        index = index + 1;
    }
    bytes
}

/// Where the packet that starts at `offset` ends, in a transmission of `len`
/// bytes: 64 bytes on, or at the end if that comes first.
pub fn next_packet_end(offset: usize, len: usize) -> (end: usize)
    requires
        offset <= len,
    ensures
        end == if len - offset > 64 { offset + 64 } else { len as int },
        offset <= end <= len,
        offset < len ==> offset < end,
{
    if len - offset > READ_BUFFER_SIZE {
        offset + READ_BUFFER_SIZE
    } else {
        len
    }
}

} // verus!
