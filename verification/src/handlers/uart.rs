//! The serial-port handler, which is not implemented.

use vstd::prelude::*;

use crate::buffers::{payload_contents, PayloadBuffer};
use crate::state::Error;

verus! {

/// Always fails with `ExecutionFailed` and leaves the buffer alone.
pub fn execute(response_buf: &mut PayloadBuffer) -> (outcome: Result<(), Error>)
    ensures
        outcome is Err && outcome->Err_0 == Error::ExecutionFailed,
        payload_contents(final(response_buf)) == payload_contents(old(response_buf)),
{
    Err(Error::ExecutionFailed)
}

} // verus!
