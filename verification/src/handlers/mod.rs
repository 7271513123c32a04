//! The peripheral handlers: what each command does to the response buffer,
//! and what it asks of the bus.

pub mod echo;
pub mod i2c;
pub mod uart;

use vstd::prelude::*;

use crate::buffers::{payload_contents, payload_slice, PayloadBuffer};
use crate::handlers::i2c::{bus_request_of, BusRequest, BusRequestView};
use crate::protocol::CommandView;
use crate::state::{CommandOwned, Error};

verus! {

/// What a command does before any bus traffic: the response buffer it
/// leaves, and either the bus transaction that has to follow, or nothing
/// more to do, or the fault it ends with.
pub open spec fn dispatch(command: CommandView, response: Seq<u8>) -> (
    Seq<u8>,
    Result<Option<BusRequestView>, Error>,
) {
    match command {
        CommandView::EchoWrite { payload } => (
            echo::echoed(response, payload),
            if response.len() + 8 + payload.len() <= 256 {
                Ok(None)
            } else {
                Err(Error::ExecutionFailed)
            },
        ),
        CommandView::I2cRead { address, register, length } => (
            i2c::after_read_check(length, response),
            if i2c::read_is_valid(length, response) {
                Ok(Some(BusRequestView::Read { address, register, length }))
            } else {
                Err(Error::ExecutionFailed)
            },
        ),
        CommandView::I2cWrite { address, register, payload } => (
            i2c::after_write_check(payload, response),
            if i2c::write_is_valid(payload) {
                Ok(Some(BusRequestView::Write { address, bytes: seq![register] + payload }))
            } else {
                Err(Error::ExecutionFailed)
            },
        ),
    }
}

/// Runs the part of `command` that needs no hardware.
///
/// An echo is answered at once. A bus command is checked, and where the
/// check passes the transaction to perform is returned; the caller performs
/// it and reports back with [`i2c::complete_read`] or
/// [`i2c::report_bus_error`].
pub fn execute_command(command: CommandOwned, response_buf: &mut PayloadBuffer) -> (outcome: Result<
    Option<BusRequest>,
    Error,
>)
    ensures
        payload_contents(final(response_buf)) == dispatch(
            command@,
            payload_contents(old(response_buf)),
        ).0,
        outcome is Ok <==> dispatch(command@, payload_contents(old(response_buf))).1 is Ok,
        outcome matches Err(error) ==> dispatch(
            command@,
            payload_contents(old(response_buf)),
        ).1->Err_0 == error,
        outcome matches Ok(request) ==> bus_request_of(request) == dispatch(
            command@,
            payload_contents(old(response_buf)),
        ).1->Ok_0,
{
    match command {
        CommandOwned::EchoWrite(payload) => {
            match echo::execute(payload_slice(&payload), response_buf) {
                Ok(()) => Ok(None),
                Err(error) => Err(error),
            }
        },
        CommandOwned::I2cRead { address, register, length } => {
            match i2c::prepare_read(length, response_buf) {
                Ok(()) => Ok(Some(BusRequest::Read { address, register, length })),
                Err(error) => Err(error),
            }
        },
        CommandOwned::I2cWrite { address, register, payload } => {
            match i2c::prepare_write(register, payload_slice(&payload), response_buf) {
                Ok(bytes) => Ok(Some(BusRequest::Write { address, bytes })),
                Err(error) => Err(error),
            }
        },
    }
}

} // verus!
