//! Transport framing: one opaque payload per self-delimiting envelope.
//!
//! An envelope is the payload's length as a little-endian base-128 prefix
//! (seven bits per byte, the high bit set on every byte but the last),
//! followed by the payload itself. This is the `postcard` encoding of a byte
//! slice, a wire format that `postcard` documents as stable; the bytes are
//! produced and parsed by `postcard`, and the layout is stated here so that
//! the contracts can speak of it.

use vstd::prelude::*;

verus! {

/// The failures that `postcard` reports, as far as framing can meet them.
#[derive(Debug, Clone, Copy, PartialEq, Eq, Structural)]
pub enum PostcardError {
    /// The destination is too short for the envelope.
    SerializeBufferFull,
    /// The bytes end before the frame does.
    DeserializeUnexpectedEnd,
    /// The length prefix fits no `usize`.
    DeserializeBadVarint,
    /// Any other failure; framing a byte slice never meets one.
    Other,
}

/// A single message envelope.
#[derive(Debug, Clone, Copy, PartialEq, Eq)]
pub struct Frame<'a> {
    pub payload: &'a [u8],
}

impl<'a> Frame<'a> {
    /// Wraps `payload` without copying it.
    pub fn new(payload: &'a [u8]) -> (frame: Self)
        ensures
            frame.payload@ == payload@,
    {
        Frame { payload }
    }
}

/// Why a frame could not be written or read.
#[derive(Debug, Clone, Copy, PartialEq, Eq, Structural)]
pub enum FrameError {
    Serialize(PostcardError),
    Deserialize(PostcardError),
}

/// The length prefix of a payload of `n` bytes.
pub open spec fn length_prefix(n: nat) -> Seq<u8>
    decreases n,
{
    if n < 128 {
        seq![n as u8]
    } else {
        seq![(128 + n % 128) as u8] + length_prefix(n / 128)
    }
}

/// The envelope of `payload`: its length prefix, then its bytes.
pub open spec fn frame_encoding(payload: Seq<u8>) -> Seq<u8> {
    length_prefix(payload.len()) + payload
}

/// The number of prefix bytes after which the decoder gives up: as many as
/// the largest `usize` needs (`postcard::varint::varint_max::<usize>()`).
pub open spec fn prefix_limit() -> nat {
    if usize::BITS == 64 {
        10
    } else {
        5
    }
}

/// The largest last byte of a prefix of `prefix_limit()` bytes: the bits of a
/// `usize` that the earlier bytes leave over
/// (`postcard::varint::max_of_last_byte::<usize>()`).
pub open spec fn last_byte_limit() -> nat {
    if usize::BITS == 64 {
        1
    } else {
        15
    }
}

/// What the head of a byte sequence says about a payload length.
pub enum Prefix {
    /// A complete prefix of `width` bytes that announces `value` payload bytes.
    Length { value: nat, width: nat },
    /// Every byte so far asks for another one.
    Incomplete,
    /// No `usize` has this prefix.
    Invalid,
}

/// Reads a length prefix from `bytes`, of which the first `at` bytes have
/// been read already and all asked for more. The value is that of the bytes
/// from `at` on; the width counts from the start. This is how `postcard`'s
/// deserializer takes a `usize`: byte by byte until one has its high bit
/// clear, giving up after `prefix_limit()` bytes or on a last byte that
/// holds more than the bits that are left.
pub open spec fn read_prefix(bytes: Seq<u8>, at: nat) -> Prefix
    decreases prefix_limit() - at,
{
    if at >= prefix_limit() {
        Prefix::Invalid
    } else if at >= bytes.len() {
        Prefix::Incomplete
    } else if bytes[at as int] < 128 {
        if at + 1 == prefix_limit() && bytes[at as int] > last_byte_limit() {
            Prefix::Invalid
        } else {
            Prefix::Length { value: bytes[at as int] as nat, width: at + 1 }
        }
    } else {
        match read_prefix(bytes, at + 1) {
            Prefix::Length { value, width } => Prefix::Length {
                value: (bytes[at as int] - 128 + 128 * value) as nat,
                width,
            },
            other => other,
        }
    }
}

/// The outcome of trying to take one frame from the head of a byte sequence.
pub enum Decoded {
    /// The first `consumed` bytes are one frame that carries `payload`.
    Frame { payload: Seq<u8>, consumed: nat },
    /// The bytes are the beginning of a frame; more are needed.
    Incomplete,
    /// No frame begins with these bytes.
    Malformed,
}

/// Takes one frame from the head of `bytes`.
pub open spec fn decode_frame(bytes: Seq<u8>) -> Decoded {
    match read_prefix(bytes, 0) {
        Prefix::Invalid => Decoded::Malformed,
        Prefix::Incomplete => Decoded::Incomplete,
        Prefix::Length { value, width } => if width + value <= bytes.len() {
            Decoded::Frame {
                payload: bytes.subrange(width as int, (width + value) as int),
                consumed: width + value,
            }
        } else {
            Decoded::Incomplete
        },
    }
}

/// `postcard::to_slice` on a byte slice: the length prefix and then the bytes
/// are written to the front of `buffer` and the number of bytes written is
/// returned, the rest of `buffer` untouched; when they do not all fit, the
/// call fails with `SerializeBufferFull`, and what `buffer` then holds is
/// not stated.
#[verifier::external_body]
fn postcard_to_slice(payload: &[u8], buffer: &mut [u8]) -> (outcome: Result<usize, PostcardError>)
    ensures
        outcome is Ok <==> frame_encoding(payload@).len() <= old(buffer)@.len(),
        outcome is Ok ==> outcome->Ok_0 == frame_encoding(payload@).len(),
        outcome is Ok ==> final(buffer)@ == frame_encoding(payload@) + old(buffer)@.subrange(
            frame_encoding(payload@).len() as int,
            old(buffer)@.len() as int,
        ),
        outcome is Err ==> outcome->Err_0 == PostcardError::SerializeBufferFull,
        final(buffer)@.len() == old(buffer)@.len(),
{
    match postcard::to_slice(payload, buffer) {
        Ok(used) => Ok(used.len()),
        Err(postcard::Error::SerializeBufferFull) => Err(PostcardError::SerializeBufferFull),
        Err(_) => Err(PostcardError::Other),
    }
}

/// `postcard::to_allocvec` on a byte slice: the envelope, in a new vector.
#[verifier::external_body]
pub(crate) fn postcard_to_allocvec(payload: &[u8]) -> (outcome: Result<Vec<u8>, PostcardError>)
    ensures
        outcome is Ok,
        outcome->Ok_0@ == frame_encoding(payload@),
{
    match postcard::to_allocvec(payload) {
        Ok(bytes) => Ok(bytes),
        Err(postcard::Error::SerializeBufferFull) => Err(PostcardError::SerializeBufferFull),
        Err(_) => Err(PostcardError::Other),
    }
}

/// `postcard::take_from_bytes` for a borrowed byte slice: the length prefix
/// is read, then as many bytes as it announces are borrowed as the payload,
/// and what follows them is handed back. When the bytes end before the
/// prefix or the payload does, the error is `DeserializeUnexpectedEnd`; when
/// the prefix fits no `usize` it is `DeserializeBadVarint`.
#[verifier::external_body]
fn postcard_take<'a>(bytes: &'a [u8]) -> (outcome: Result<(&'a [u8], &'a [u8]), PostcardError>)
    ensures
        outcome is Ok <==> decode_frame(bytes@) is Frame,
        outcome is Ok ==> decode_frame(bytes@)->payload == outcome->Ok_0.0@,
        outcome is Ok ==> outcome->Ok_0.1@ == bytes@.subrange(
            decode_frame(bytes@)->consumed as int,
            bytes@.len() as int,
        ),
        outcome is Err && decode_frame(bytes@) is Incomplete ==> outcome->Err_0
            == PostcardError::DeserializeUnexpectedEnd,
        outcome is Err && decode_frame(bytes@) is Malformed ==> outcome->Err_0
            == PostcardError::DeserializeBadVarint,
{
    match postcard::take_from_bytes::<&[u8]>(bytes) {
        Ok(parts) => Ok(parts),
        Err(postcard::Error::DeserializeUnexpectedEnd) => Err(
            PostcardError::DeserializeUnexpectedEnd,
        ),
        Err(postcard::Error::DeserializeBadVarint) => Err(PostcardError::DeserializeBadVarint),
        Err(_) => Err(PostcardError::Other),
    }
}

/// Writes the envelope of `payload` to the front of `buffer`.
///
/// Returns the envelope's length. Fails, with `SerializeBufferFull` inside,
/// exactly when the envelope does not fit; `buffer` keeps its length either
/// way, and on success its bytes behind the envelope.
pub fn encode_into(payload: &[u8], buffer: &mut [u8]) -> (outcome: Result<usize, FrameError>)
    ensures
        outcome is Ok <==> frame_encoding(payload@).len() <= old(buffer)@.len(),
        outcome is Ok ==> outcome->Ok_0 == frame_encoding(payload@).len(),
        outcome is Ok ==> final(buffer)@ == frame_encoding(payload@) + old(buffer)@.subrange(
            frame_encoding(payload@).len() as int,
            old(buffer)@.len() as int,
        ),
        outcome is Err ==> outcome->Err_0 == FrameError::Serialize(
            PostcardError::SerializeBufferFull,
        ),
        final(buffer)@.len() == old(buffer)@.len(),
{
    match postcard_to_slice(payload, buffer) {
        Ok(written) => Ok(written),
        Err(error) => Err(FrameError::Serialize(error)),
    }
}

/// Takes one frame from the head of `bytes`.
///
/// On success the frame borrows its payload from `bytes`, and the second
/// component is what follows the frame. Nothing is consumed on failure: the
/// error holds `DeserializeUnexpectedEnd` when `bytes` is the beginning of a
/// frame, and `DeserializeBadVarint` when no frame begins like `bytes`.
pub fn take_from_bytes<'a>(bytes: &'a [u8]) -> (outcome: Result<(Frame<'a>, &'a [u8]), FrameError>)
    ensures
        outcome is Ok <==> decode_frame(bytes@) is Frame,
        outcome is Ok ==> decode_frame(bytes@)->payload == outcome->Ok_0.0.payload@,
        outcome is Ok ==> outcome->Ok_0.1@ == bytes@.subrange(
            decode_frame(bytes@)->consumed as int,
            bytes@.len() as int,
        ),
        decode_frame(bytes@) is Incomplete ==> outcome is Err && outcome->Err_0
            == FrameError::Deserialize(PostcardError::DeserializeUnexpectedEnd),
        decode_frame(bytes@) is Malformed ==> outcome is Err && outcome->Err_0
            == FrameError::Deserialize(PostcardError::DeserializeBadVarint),
{
    match postcard_take(bytes) {
        Ok((payload, rest)) => Ok((Frame::new(payload), rest)),
        Err(error) => Err(FrameError::Deserialize(error)),
    }
}

/// The largest length that a prefix can still announce when `at` of its bytes
/// have been read and were full: a `usize` without its low `7 * at` bits.
spec fn room(at: nat) -> nat
    decreases at,
{
    if at == 0 {
        usize::MAX as nat
    } else {
        room((at - 1) as nat) / 128
    }
}

proof fn lemma_room_values()
    ensures
        room(0) == usize::MAX,
        usize::BITS == 64 ==> room(9) == 1 && room(10) == 0,
        usize::BITS != 64 ==> room(4) == 15 && room(5) == 0,
        forall|at: nat| at >= prefix_limit() ==> room(at) == 0,
        room((prefix_limit() - 1) as nat) == last_byte_limit(),
{
    reveal_with_fuel(room, 11);
    assert forall|at: nat| at >= prefix_limit() implies room(at) == 0 by {
        lemma_room_stays_empty(prefix_limit(), at);
    }
}

proof fn lemma_room_stays_empty(from: nat, at: nat)
    requires
        room(from) == 0,
        from <= at,
    ensures
        room(at) == 0,
    decreases at,
{
    if at > from {
        lemma_room_stays_empty(from, (at - 1) as nat);
    }
}

/// A length prefix is never empty, and only its last byte is below 128.
pub proof fn lemma_length_prefix_shape(n: nat)
    ensures
        length_prefix(n).len() >= 1,
        forall|i: int| 0 <= i < length_prefix(n).len() - 1 ==> length_prefix(n)[i] >= 128,
        length_prefix(n)[length_prefix(n).len() - 1] < 128,
    decreases n,
{
    if n >= 128 {
        lemma_length_prefix_shape(n / 128);
        let whole = length_prefix(n);
        assert forall|i: int| 0 <= i < whole.len() - 1 implies whole[i] >= 128 by {}
    }
}

proof fn lemma_read_written(bytes: Seq<u8>, at: nat, n: nat)
    requires
        at < prefix_limit(),
        n <= room(at),
        at + length_prefix(n).len() <= bytes.len(),
        bytes.subrange(at as int, (at + length_prefix(n).len()) as int) == length_prefix(n),
    ensures
        read_prefix(bytes, at) == (Prefix::Length { value: n, width: at + length_prefix(n).len() }),
    decreases n,
{
    lemma_room_values();
    let written = length_prefix(n);
    assert(bytes[at as int] == bytes.subrange(at as int, (at + written.len()) as int)[0]);
    if n >= 128 {
        let rest = length_prefix(n / 128);
        let next = (at + 1) as int;
        assert(bytes.subrange(next, next + rest.len()) =~= rest) by {
            assert forall|i: int| 0 <= i < rest.len() implies bytes.subrange(
                next,
                next + rest.len(),
            )[i] == rest[i] by {
                assert(bytes.subrange(at as int, (at + written.len()) as int)[i + 1] == written[i
                    + 1]);
            }
        }
        lemma_read_written(bytes, at + 1, n / 128);
    }
}

/// Decoding what was encoded gives the payload back.
///
/// For every payload whose length a `usize` can hold, and whatever bytes
/// follow its envelope, taking a frame yields that payload and consumes
/// exactly the envelope.
pub proof fn lemma_round_trip(payload: Seq<u8>, rest: Seq<u8>)
    requires
        payload.len() <= usize::MAX,
    ensures
        decode_frame(frame_encoding(payload) + rest) == (Decoded::Frame {
            payload,
            consumed: frame_encoding(payload).len(),
        }),
{
    let prefix = length_prefix(payload.len());
    let bytes = frame_encoding(payload) + rest;
    lemma_room_values();
    assert(bytes.subrange(0, prefix.len() as int) =~= prefix);
    lemma_read_written(bytes, 0, payload.len());
    assert(bytes.subrange(prefix.len() as int, (prefix.len() + payload.len()) as int) =~= payload);
}

proof fn lemma_prefix_bounds(bytes: Seq<u8>, at: nat)
    requires
        read_prefix(bytes, at) is Length,
    ensures
        at < read_prefix(bytes, at)->width <= bytes.len(),
        read_prefix(bytes, at)->width <= prefix_limit(),
    decreases prefix_limit() - at,
{
    if bytes[at as int] >= 128 {
        lemma_prefix_bounds(bytes, at + 1);
    }
}

proof fn lemma_prefix_survives_extension(bytes: Seq<u8>, more: Seq<u8>, at: nat)
    requires
        !(read_prefix(bytes, at) is Incomplete),
    ensures
        read_prefix(bytes + more, at) == read_prefix(bytes, at),
    decreases prefix_limit() - at,
{
    if at < prefix_limit() && at < bytes.len() {
        if bytes[at as int] >= 128 {
            lemma_prefix_survives_extension(bytes, more, at + 1);
        }
    }
}

proof fn lemma_prefix_of_cut(bytes: Seq<u8>, cut: nat, at: nat)
    requires
        read_prefix(bytes, at) is Length,
        cut <= bytes.len(),
    ensures
        cut >= read_prefix(bytes, at)->width ==> read_prefix(bytes.subrange(0, cut as int), at)
            == read_prefix(bytes, at),
        at <= cut < read_prefix(bytes, at)->width ==> read_prefix(bytes.subrange(0, cut as int), at)
            is Incomplete,
    decreases prefix_limit() - at,
{
    lemma_prefix_bounds(bytes, at);
    if at < cut && bytes[at as int] >= 128 {
        lemma_prefix_of_cut(bytes, cut, at + 1);
    }
}

/// A frame occupies at least one byte and at most all of them.
pub proof fn lemma_frame_is_not_empty(bytes: Seq<u8>)
    ensures
        decode_frame(bytes) is Frame ==> 0 < decode_frame(bytes)->consumed <= bytes.len(),
        decode_frame(bytes) is Frame ==> decode_frame(bytes)->payload.len() < decode_frame(
            bytes,
        )->consumed,
{
    if read_prefix(bytes, 0) is Length {
        lemma_prefix_bounds(bytes, 0);
    }
}

/// Bytes that arrive behind a whole frame do not change it.
///
/// Once the head of a buffer decodes to a frame, appending more bytes yields
/// the same payload and the same consumed count; and bytes that no frame
/// begins with stay so.
pub proof fn lemma_decoding_survives_extension(bytes: Seq<u8>, more: Seq<u8>)
    requires
        !(decode_frame(bytes) is Incomplete),
    ensures
        decode_frame(bytes + more) == decode_frame(bytes),
{
    lemma_prefix_survives_extension(bytes, more, 0);
    if let Prefix::Length { value, width } = read_prefix(bytes, 0) {
        assert((bytes + more).subrange(width as int, (width + value) as int) =~= bytes.subrange(
            width as int,
            (width + value) as int,
        ));
    }
}

/// Every strict beginning of a frame is incomplete, never malformed and
/// never a frame of its own.
pub proof fn lemma_partial_frame_is_incomplete(bytes: Seq<u8>, cut: nat)
    requires
        decode_frame(bytes) is Frame,
        cut < decode_frame(bytes)->consumed,
    ensures
        decode_frame(bytes.subrange(0, cut as int)) is Incomplete,
{
    lemma_prefix_bounds(bytes, 0);
    lemma_prefix_of_cut(bytes, cut, 0);
}

/// All the bytes of a sequence of chunks, in order.
pub open spec fn concat(chunks: Seq<Seq<u8>>) -> Seq<u8>
    decreases chunks.len(),
{
    if chunks.len() == 0 {
        Seq::<u8>::empty()
    } else {
        chunks[0] + concat(chunks.skip(1))
    }
}

/// A receiver that appends each arriving chunk to its buffer and tries to
/// take a frame after each one. The result is the first payload it decodes,
/// if any, and the bytes that are then left over: what the buffer holds
/// behind the frame, followed by the chunks that have not arrived yet. Bytes
/// that no frame begins with are discarded.
pub open spec fn reassemble(buffer: Seq<u8>, chunks: Seq<Seq<u8>>) -> (Option<Seq<u8>>, Seq<u8>)
    decreases chunks.len(),
{
    if chunks.len() == 0 {
        (None, buffer)
    } else {
        let held = buffer + chunks[0];
        match decode_frame(held) {
            Decoded::Frame { payload, consumed } => (
                Some(payload),
                held.subrange(consumed as int, held.len() as int) + concat(chunks.skip(1)),
            ),
            Decoded::Incomplete => reassemble(held, chunks.skip(1)),
            Decoded::Malformed => (None, Seq::<u8>::empty()),
        }
    }
}

proof fn lemma_reassemble_from(
    buffer: Seq<u8>,
    chunks: Seq<Seq<u8>>,
    payload: Seq<u8>,
    rest: Seq<u8>,
)
    requires
        payload.len() <= usize::MAX,
        buffer + concat(chunks) == frame_encoding(payload) + rest,
        buffer.len() < frame_encoding(payload).len(),
    ensures
        reassemble(buffer, chunks) == (Some(payload), rest),
    decreases chunks.len(),
{
    let stream = frame_encoding(payload) + rest;
    let size = frame_encoding(payload).len();
    lemma_round_trip(payload, rest);
    if chunks.len() > 0 {
        let held = buffer + chunks[0];
        let later = concat(chunks.skip(1));
        assert(held + later =~= stream);
        assert(held =~= stream.subrange(0, held.len() as int));
        if held.len() < size {
            lemma_partial_frame_is_incomplete(stream, held.len());
            lemma_reassemble_from(held, chunks.skip(1), payload, rest);
        } else {
            let whole = stream.subrange(0, size as int);
            let surplus = held.subrange(size as int, held.len() as int);
            assert(whole =~= frame_encoding(payload));
            lemma_round_trip(payload, Seq::<u8>::empty());
            assert(held =~= whole + surplus);
            lemma_decoding_survives_extension(whole, surplus);
            assert(rest =~= stream.subrange(size as int, stream.len() as int));
            assert(surplus + later =~= rest);
        }
    }
}

/// Chunking does not matter.
///
/// However the bytes of an envelope, and of whatever follows it, are cut
/// into chunks (one byte at a time, all at once, or anything between), the
/// receiver decodes the same payload and is left with the same bytes.
pub proof fn lemma_chunking_is_irrelevant(chunks: Seq<Seq<u8>>, payload: Seq<u8>, rest: Seq<u8>)
    requires
        payload.len() <= usize::MAX,
        concat(chunks) == frame_encoding(payload) + rest,
    ensures
        reassemble(Seq::<u8>::empty(), chunks) == (Some(payload), rest),
{
    lemma_length_prefix_shape(payload.len());
    lemma_reassemble_from(Seq::<u8>::empty(), chunks, payload, rest);
}

} // verus!
