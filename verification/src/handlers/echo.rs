//! The echo handler.

use vstd::prelude::*;

use crate::buffers::{payload_contents, payload_extend, PayloadBuffer};
use crate::state::Error;

verus! {

/// What every echo starts with: the text `rp2040: `.
pub const ECHO_PREFIX: [u8; 8] = [0x72, 0x70, 0x32, 0x30, 0x34, 0x30, 0x3a, 0x20];

/// The response buffer after an echo of `payload`: the prefix is appended if
/// it fits, and then the payload if that fits too.
pub open spec fn echoed(response: Seq<u8>, payload: Seq<u8>) -> Seq<u8> {
    if response.len() + 8 > 256 {
        response
    } else if response.len() + 8 + payload.len() > 256 {
        response + ECHO_PREFIX@
    } else {
        response + ECHO_PREFIX@ + payload
    }
}

/// Appends the echo of `payload` to the response buffer.
///
/// Succeeds exactly when prefix and payload both fit; otherwise the fault is
/// `ExecutionFailed`, and the buffer holds what did fit.
pub fn execute(payload: &[u8], response_buf: &mut PayloadBuffer) -> (outcome: Result<(), Error>)
    ensures
        outcome is Ok <==> payload_contents(old(response_buf)).len() + 8 + payload@.len() <= 256,
        outcome is Err ==> outcome->Err_0 == Error::ExecutionFailed,
        payload_contents(final(response_buf)) == echoed(
            payload_contents(old(response_buf)),
            payload@,
        ),
{
    let prefix: [u8; 8] = ECHO_PREFIX;
    if payload_extend(response_buf, prefix.as_slice()).is_err() {
        return Err(Error::ExecutionFailed);
    }
    if payload_extend(response_buf, payload).is_err() {
        return Err(Error::ExecutionFailed);
    }
    Ok(())
}

} // verus!
