//! The bus handlers, without the bus.
//!
//! A command is checked before the bus is touched, and the outcome of the
//! transaction is written to the response buffer afterwards. The transaction
//! itself is the caller's business.

use vstd::prelude::*;
use vstd::string::StringSliceAdditionalSpecFns;

use crate::buffers::{
    payload_clear, payload_contents, payload_extend, payload_slice, PayloadBuffer,
};
use crate::state::Error;

verus! {

/// A transaction on the bus.
#[derive(Debug, Clone, PartialEq, Eq)]
pub enum BusRequest {
    /// Write `register` to the device, then read `length` bytes from it.
    Read { address: u8, register: u8, length: u8 },
    /// Write `bytes` to the device.
    Write { address: u8, bytes: Vec<u8> },
}

/// A transaction on the bus, as a mathematical value.
pub enum BusRequestView {
    Read { address: u8, register: u8, length: u8 },
    Write { address: u8, bytes: Seq<u8> },
}

impl View for BusRequest {
    type V = BusRequestView;

    open spec fn view(&self) -> BusRequestView {
        match *self {
            BusRequest::Read { address, register, length } => BusRequestView::Read {
                address,
                register,
                length,
            },
            BusRequest::Write { address, bytes } => BusRequestView::Write {
                address,
                bytes: bytes@,
            },
        }
    }
}

/// The view of a transaction that may be absent.
pub open spec fn bus_request_of(request: Option<BusRequest>) -> Option<BusRequestView> {
    match request {
        Some(request) => Some(request@),
        None => None,
    }
}

/// The text that reports a read of no bytes.
pub open spec fn zero_length_message() -> Seq<u8> {
    "i2c error: length must be greater than zero".spec_bytes()
}

/// The text that reports a read of more bytes than the response can take.
pub open spec fn long_read_message() -> Seq<u8> {
    "i2c error: length exceeds buffer".spec_bytes()
}

/// The text that reports a write without payload.
pub open spec fn empty_write_message() -> Seq<u8> {
    "i2c error: payload must not be empty".spec_bytes()
}

/// The text that reports a write whose payload is too long.
pub open spec fn long_write_message() -> Seq<u8> {
    "i2c error: payload too large".spec_bytes()
}

/// The text in front of a bus error.
pub open spec fn bus_error_prefix() -> Seq<u8> {
    "i2c error: ".spec_bytes()
}

/// Whether a read of `length` bytes can go to the bus.
pub open spec fn read_is_valid(length: u8, response: Seq<u8>) -> bool {
    0 < length && length + response.len() <= 256
}

/// The response buffer after the check of a read.
pub open spec fn after_read_check(length: u8, response: Seq<u8>) -> Seq<u8> {
    if length == 0 {
        zero_length_message()
    } else if length + response.len() > 256 {
        long_read_message()
    } else {
        response
    }
}

/// Whether a write of `payload` can go to the bus.
pub open spec fn write_is_valid(payload: Seq<u8>) -> bool {
    0 < payload.len() < 256
}

/// The response buffer after the check of a write.
pub open spec fn after_write_check(payload: Seq<u8>, response: Seq<u8>) -> Seq<u8> {
    if payload.len() == 0 {
        empty_write_message()
    } else if payload.len() >= 256 {
        long_write_message()
    } else {
        response
    }
}

/// Replaces the response by `message`. Fails with `BufferProcessFailed`,
/// leaving the response empty, when the message is longer than the buffer.
fn push_error_message(response: &mut PayloadBuffer, message: &str) -> (outcome: Result<(), Error>)
    ensures
        outcome is Ok <==> message.spec_bytes().len() <= 256,
        outcome is Ok ==> payload_contents(final(response)) == message.spec_bytes(),
        outcome is Err ==> outcome->Err_0 == Error::BufferProcessFailed && payload_contents(
            final(response),
        ) == Seq::<u8>::empty(),
{
    payload_clear(response);
    match payload_extend(response, message.as_bytes()) {
        Ok(()) => {
            Ok(())
        },
        Err(_) => Err(Error::BufferProcessFailed),
    }
}

/// The lengths of the texts that the bus handlers write.
pub proof fn lemma_message_lengths()
    ensures
        zero_length_message().len() == 43,
        long_read_message().len() == 32,
        empty_write_message().len() == 36,
        long_write_message().len() == 28,
        bus_error_prefix().len() == 11,
{
    reveal_strlit("i2c error: length must be greater than zero");
    reveal_strlit("i2c error: length exceeds buffer");
    reveal_strlit("i2c error: payload must not be empty");
    reveal_strlit("i2c error: payload too large");
    reveal_strlit("i2c error: ");
    vstd::string::is_ascii_spec_bytes("i2c error: length must be greater than zero");
    vstd::string::is_ascii_spec_bytes("i2c error: length exceeds buffer");
    vstd::string::is_ascii_spec_bytes("i2c error: payload must not be empty");
    vstd::string::is_ascii_spec_bytes("i2c error: payload too large");
    vstd::string::is_ascii_spec_bytes("i2c error: ");
}

/// Checks a read before it goes to the bus.
///
/// A read of no bytes, or of more bytes than the response buffer has room
/// for, fails with `ExecutionFailed` and leaves its reason in the buffer.
pub fn prepare_read(length: u8, response: &mut PayloadBuffer) -> (outcome: Result<(), Error>)
    ensures
        outcome is Ok <==> read_is_valid(length, payload_contents(old(response))),
        outcome is Err ==> outcome->Err_0 == Error::ExecutionFailed,
        payload_contents(final(response)) == after_read_check(
            length,
            payload_contents(old(response)),
        ),
{
    proof {
        lemma_message_lengths();
    }
    let len: usize = length as usize;
    let held: usize = payload_slice(response).len();
    let available: usize = 256 - held;
    if len == 0 {
        let _ = push_error_message(response, "i2c error: length must be greater than zero");
        return Err(Error::ExecutionFailed);
    }
    if len > available {
        let _ = push_error_message(response, "i2c error: length exceeds buffer");
        return Err(Error::ExecutionFailed);
    }
    Ok(())
}

/// Appends the bytes that the bus returned to the response. Fails with
/// `BufferProcessFailed`, changing nothing, when they do not fit.
pub fn complete_read(data: &[u8], response: &mut PayloadBuffer) -> (outcome: Result<(), Error>)
    ensures
        outcome is Ok <==> payload_contents(old(response)).len() + data@.len() <= 256,
        outcome is Ok ==> payload_contents(final(response)) == payload_contents(old(response))
            + data@,
        outcome is Err ==> outcome->Err_0 == Error::BufferProcessFailed && payload_contents(
            final(response),
        ) == payload_contents(old(response)),
{
    match payload_extend(response, data) {
        Ok(()) => Ok(()),
        Err(_) => Err(Error::BufferProcessFailed),
    }
}

/// The response buffer after a bus error with description `detail`: the
/// report replaces the response if it is at most 64 bytes long.
pub open spec fn after_bus_error(detail: Seq<u8>, response: Seq<u8>) -> Seq<u8> {
    if 11 + detail.len() <= 64 {
        bus_error_prefix() + detail
    } else {
        response
    }
}

/// Replaces the response by a report of a bus error, whose description is
/// `detail`. A report of more than 64 bytes is not written, and the call
/// fails with `BufferProcessFailed`.
pub fn report_bus_error(detail: &[u8], response: &mut PayloadBuffer) -> (outcome: Result<(), Error>)
    ensures
        outcome is Ok <==> 11 + detail@.len() <= 64,
        outcome is Err ==> outcome->Err_0 == Error::BufferProcessFailed,
        payload_contents(final(response)) == after_bus_error(
            detail@,
            payload_contents(old(response)),
        ),
{
    proof {
        lemma_message_lengths();
    }
    if detail.len() > 64 - 11 {
        return Err(Error::BufferProcessFailed);
    }
    let _ = push_error_message(response, "i2c error: ");
    let _ = payload_extend(response, detail);
    Ok(())
}

/// Checks a write and lays out what goes to the bus: the register, then the
/// payload.
///
/// A write without payload, or with one of 256 bytes or more, fails with
/// `ExecutionFailed` and leaves its reason in the response buffer.
pub fn prepare_write(register: u8, payload: &[u8], response: &mut PayloadBuffer) -> (outcome:
    Result<Vec<u8>, Error>)
    ensures
        outcome is Ok <==> write_is_valid(payload@),
        outcome matches Ok(bytes) ==> bytes@ == seq![register] + payload@,
        outcome is Err ==> outcome->Err_0 == Error::ExecutionFailed,
        payload_contents(final(response)) == after_write_check(
            payload@,
            payload_contents(old(response)),
        ),
{
    proof {
        lemma_message_lengths();
    }
    if payload.len() == 0 {
        let _ = push_error_message(response, "i2c error: payload must not be empty");
        return Err(Error::ExecutionFailed);
    }
    if payload.len() >= 256 {
        let _ = push_error_message(response, "i2c error: payload too large");
        return Err(Error::ExecutionFailed);
    }
    let mut bytes: Vec<u8> = Vec::new();
    bytes.push(register);
    let mut index: usize = 0;
    while index < payload.len()
        invariant
            index <= payload@.len(),
            bytes@ == seq![register] + payload@.subrange(0, index as int),
        decreases payload@.len() - index,
    {
        bytes.push(payload[index]);
        index = index + 1;
    }
    Ok(bytes)
}

} // verus!
