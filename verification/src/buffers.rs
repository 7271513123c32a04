//! Fixed-capacity byte buffers.
//!
//! The buffers are `heapless::Vec<u8, N>` values. Verus cannot look inside
//! them, so each capacity used by the firmware gets a name for the bytes it
//! currently holds, and each `heapless` method that the library calls gets a
//! small wrapper whose contract restates the method's source over that name.

use vstd::prelude::*;

verus! {

/// Capacity of the scratch buffer that collects the handshake phrase.
pub const HANDSHAKE_BUFFER_SIZE: usize = 64;

/// Capacity of the buffer in which incoming frames are reassembled.
pub const FRAME_BUFFER_SIZE: usize = 512;

/// Capacity of a decoded command payload and of a response.
pub const MAX_COMMAND_SIZE: usize = 256;

/// Scratch buffer for the handshake phrase.
pub type HandshakeBuffer = heapless::Vec<u8, 64>;

/// Reassembly buffer for incoming frames.
pub type FrameBuffer = heapless::Vec<u8, 512>;

/// Buffer for one command payload or one response.
pub type PayloadBuffer = heapless::Vec<u8, 256>;

/// `heapless::Vec`, opaque to the verifier.
#[verifier::external_type_specification]
#[verifier::external_body]
#[verifier::reject_recursive_types(T)]
pub struct ExHeaplessVec<T, const N: usize>(heapless::Vec<T, N>);

/// The bytes held by a handshake buffer, oldest first.
pub uninterp spec fn handshake_contents(buffer: &HandshakeBuffer) -> Seq<u8>;

/// The bytes held by a frame buffer, oldest first.
pub uninterp spec fn frame_contents(buffer: &FrameBuffer) -> Seq<u8>;

/// The bytes held by a payload buffer, oldest first.
pub uninterp spec fn payload_contents(buffer: &PayloadBuffer) -> Seq<u8>;

/// `heapless::Vec::new` at capacity 64: the new buffer is empty.
#[verifier::external_body]
pub(crate) fn handshake_new() -> (buffer: HandshakeBuffer)
    ensures
        handshake_contents(&buffer) == Seq::<u8>::empty(),
{
    heapless::Vec::new()
}

/// `heapless::Vec::push` at capacity 64: the byte is appended when fewer than
/// 64 bytes are held; otherwise it is handed back and nothing changes.
#[verifier::external_body]
pub(crate) fn handshake_push(buffer: &mut HandshakeBuffer, byte: u8) -> (outcome: Result<(), u8>)
    ensures
        outcome is Ok <==> handshake_contents(old(buffer)).len() < 64,
        outcome is Ok ==> handshake_contents(final(buffer)) == handshake_contents(old(buffer)).push(
            byte,
        ),
        outcome is Err ==> outcome->Err_0 == byte,
        outcome is Err ==> handshake_contents(final(buffer)) == handshake_contents(old(buffer)),
{
    buffer.push(byte)
}

/// `heapless::Vec::clear` at capacity 64: nothing is held afterwards.
#[verifier::external_body]
pub(crate) fn handshake_clear(buffer: &mut HandshakeBuffer)
    ensures
        handshake_contents(final(buffer)) == Seq::<u8>::empty(),
{
    buffer.clear()
}

/// `heapless::Vec::as_slice` at capacity 64: the slice is the held bytes,
/// never more than 64 of them.
#[verifier::external_body]
pub(crate) fn handshake_slice(buffer: &HandshakeBuffer) -> (slice: &[u8])
    ensures
        slice@ == handshake_contents(buffer),
        slice@.len() <= 64,
{
    buffer.as_slice()
}

/// `heapless::Vec::new` at capacity 512: the new buffer is empty.
#[verifier::external_body]
pub(crate) fn frame_new() -> (buffer: FrameBuffer)
    ensures
        frame_contents(&buffer) == Seq::<u8>::empty(),
{
    heapless::Vec::new()
}

/// `heapless::Vec::push` at capacity 512: the byte is appended when fewer
/// than 512 bytes are held; otherwise it is handed back and nothing changes.
#[verifier::external_body]
pub(crate) fn frame_push(buffer: &mut FrameBuffer, byte: u8) -> (outcome: Result<(), u8>)
    ensures
        outcome is Ok <==> frame_contents(old(buffer)).len() < 512,
        outcome is Ok ==> frame_contents(final(buffer)) == frame_contents(old(buffer)).push(
            byte,
        ),
        outcome is Err ==> outcome->Err_0 == byte,
        outcome is Err ==> frame_contents(final(buffer)) == frame_contents(old(buffer)),
{
    buffer.push(byte)
}

/// `heapless::Vec::clear` at capacity 512: nothing is held afterwards.
#[verifier::external_body]
pub(crate) fn frame_clear(buffer: &mut FrameBuffer)
    ensures
        frame_contents(final(buffer)) == Seq::<u8>::empty(),
{
    buffer.clear()
}

/// `heapless::Vec::as_slice` at capacity 512: the slice is the held bytes,
/// never more than 512 of them.
#[verifier::external_body]
pub(crate) fn frame_slice(buffer: &FrameBuffer) -> (slice: &[u8])
    ensures
        slice@ == frame_contents(buffer),
        slice@.len() <= 512,
{
    buffer.as_slice()
}

/// `heapless::Vec::truncate` at capacity 512: the first `len` bytes are kept;
/// a `len` beyond what is held changes nothing.
#[verifier::external_body]
pub(crate) fn frame_truncate(buffer: &mut FrameBuffer, len: usize)
    ensures
        len <= frame_contents(old(buffer)).len() ==> frame_contents(final(buffer))
            == frame_contents(old(buffer)).subrange(0, len as int),
        len > frame_contents(old(buffer)).len() ==> frame_contents(final(buffer))
            == frame_contents(old(buffer)),
{
    buffer.truncate(len)
}

/// Indexed store through `heapless::Vec`'s `DerefMut` to a slice: the byte at
/// `index` is replaced and every other byte stays.
#[verifier::external_body]
pub(crate) fn frame_store(buffer: &mut FrameBuffer, index: usize, byte: u8)
    requires
        index < frame_contents(old(buffer)).len(),
    ensures
        frame_contents(final(buffer)) == frame_contents(old(buffer)).update(index as int, byte),
{
    buffer[index] = byte;
}

/// `heapless::Vec::new` at capacity 256: the new buffer is empty.
#[verifier::external_body]
pub(crate) fn payload_new() -> (buffer: PayloadBuffer)
    ensures
        payload_contents(&buffer) == Seq::<u8>::empty(),
{
    heapless::Vec::new()
}

/// `heapless::Vec::extend_from_slice` at capacity 256: all of `bytes` is
/// appended when the total stays within 256; otherwise nothing changes.
#[verifier::external_body]
pub(crate) fn payload_extend(buffer: &mut PayloadBuffer, bytes: &[u8]) -> (outcome: Result<(), ()>)
    ensures
        outcome is Ok <==> payload_contents(old(buffer)).len() + bytes@.len() <= 256,
        outcome is Ok ==> payload_contents(final(buffer)) == payload_contents(old(buffer)) + bytes@,
        outcome is Err ==> payload_contents(final(buffer)) == payload_contents(old(buffer)),
{
    buffer.extend_from_slice(bytes)
}

/// `heapless::Vec::clear` at capacity 256: nothing is held afterwards.
#[verifier::external_body]
pub(crate) fn payload_clear(buffer: &mut PayloadBuffer)
    ensures
        payload_contents(final(buffer)) == Seq::<u8>::empty(),
{
    buffer.clear()
}

/// `heapless::Vec::as_slice` at capacity 256: the slice is the held bytes,
/// never more than 256 of them.
#[verifier::external_body]
pub(crate) fn payload_slice(buffer: &PayloadBuffer) -> (slice: &[u8])
    ensures
        slice@ == payload_contents(buffer),
        slice@.len() <= 256,
{
    buffer.as_slice()
}

/// `bytes` without its first `count` bytes; empty when it has no more than
/// `count`.
pub open spec fn remainder(bytes: Seq<u8>, count: usize) -> Seq<u8> {
    if count >= bytes.len() {
        Seq::empty()
    } else {
        bytes.subrange(count as int, bytes.len() as int)
    }
}

/// Removes the first `count` bytes of the buffer in place.
///
/// With `count` at or beyond the held length the buffer ends up empty;
/// otherwise the bytes behind the prefix are moved to the front, in order,
/// and the length shrinks by `count`.
pub fn drop_prefix(buffer: &mut FrameBuffer, count: usize)
    ensures
        frame_contents(final(buffer)) == remainder(frame_contents(old(buffer)), count),
{
    if count == 0 {
        return ;
    }
    let len = frame_slice(buffer).len();
    if count >= len {
        frame_clear(buffer);
        return ;
    }
    let ghost before = frame_contents(buffer);
    let mut idx: usize = count;
    while idx < len
        invariant
            0 < count <= idx <= len,
            len == before.len(),
            frame_contents(buffer).len() == len,
            forall|k: int| 0 <= k < idx - count ==> frame_contents(buffer)[k] == before[k + count],
            forall|k: int| idx - count <= k < len ==> frame_contents(buffer)[k] == before[k],
        decreases len - idx,
    {
        let byte = frame_slice(buffer)[idx];
        frame_store(buffer, idx - count, byte);
        idx = idx + 1;
    }
    frame_truncate(buffer, len - count);
}

} // verus!
