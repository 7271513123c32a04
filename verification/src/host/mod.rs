//! The host side: command lines to command bytes, and frames to and from the
//! byte stream.
//!
//! A command line is `<method> [operation] <arguments...>`: `echo <text>`,
//! `i2c read <address> <register> <length>`, or
//! `i2c write <address> <register> <byte> [<byte> ...]`. Numbers are decimal,
//! or hexadecimal behind `0x`, or binary behind `0b`.

pub mod i2c;
pub mod text;

use vstd::prelude::*;
use vstd::string::StringSliceAdditionalSpecFns;

use crate::bytes::{has_prefix, starts_with};
use crate::host::i2c::{
    encode_read_operands, encode_write_operands, read_operands, write_operands,
};
use crate::host::text::{
    after_first_word, first_word, matches_word, number, parse_number, same_word, split_word,
    trim, trim_start, trimmed, trimmed_start,
};
use crate::protocol::{
    command_bytes, decode_command_spec, is_supported, method_byte, operation_byte, supports,
    CommandView, Method, Operation,
};
use crate::transport::{
    decode_frame, frame_encoding, lemma_frame_is_not_empty, postcard_to_allocvec,
    take_from_bytes, FrameError, PostcardError,
};

verus! {

/// Why a command line could not be encoded.
#[derive(Debug, Clone, Copy, PartialEq, Eq, Structural)]
pub enum EncodeError {
    /// The line holds nothing but white space.
    Empty,
    /// The first word names no method.
    UnknownMethod,
    /// The second word names no operation.
    UnknownOperation,
    /// The method does not have the operation.
    UnsupportedOperation { method: Method, operation: Operation },
    /// Nothing follows a method that needs an operation.
    MissingOperation,
    /// The argument at `index`, counted from zero, is not there.
    MissingArgument { index: usize },
    /// An argument stands at `index` where none belongs.
    UnexpectedArgument { index: usize },
    /// The argument at `index` is no number, or not the number of a byte.
    InvalidArgument { index: usize },
    /// The output cannot hold the command.
    OutputTooSmall,
}

/// Why a frame could not be written or read on the host.
#[derive(Debug, Clone, Copy, PartialEq, Eq, Structural)]
pub enum TransportCodecError {
    Encode(PostcardError),
    Decode(PostcardError),
}

/// The envelope of `payload`, ready to be written to the device. Never
/// fails.
pub fn encode_transport_frame(payload: &[u8]) -> (outcome: Result<Vec<u8>, TransportCodecError>)
    ensures
        outcome is Ok,
        outcome->Ok_0@ == frame_encoding(payload@),
{
    match postcard_to_allocvec(payload) {
        Ok(bytes) => Ok(bytes),
        Err(error) => Err(TransportCodecError::Encode(error)),
    }
}

/// Tries to take one frame from the head of what the device has sent.
///
/// A whole frame yields a copy of its payload and the number of bytes it
/// occupied; the beginning of a frame yields `None`; bytes that no frame
/// begins with are an error that holds `DeserializeBadVarint`.
pub fn try_decode_transport_frame(buffer: &[u8]) -> (outcome: Result<
    Option<(Vec<u8>, usize)>,
    TransportCodecError,
>)
    ensures
        outcome is Ok <==> !(decode_frame(buffer@) is Malformed),
        outcome is Err ==> outcome->Err_0 == TransportCodecError::Decode(
            PostcardError::DeserializeBadVarint,
        ),
        outcome matches Ok(found) ==> (found is Some <==> decode_frame(buffer@) is Frame),
        outcome matches Ok(Some(taken)) ==> taken.0@ == decode_frame(buffer@)->payload && taken.1
            == decode_frame(buffer@)->consumed,
{
    match take_from_bytes(buffer) {
        Ok((frame, remaining)) => {
            let consumed = buffer.len() - remaining.len();
            Ok(Some((vstd::slice::slice_to_vec(frame.payload), consumed)))
        },
        Err(FrameError::Deserialize(err)) => {
            if err == PostcardError::DeserializeUnexpectedEnd {
                Ok(None)
            } else {
                Err(TransportCodecError::Decode(err))
            }
        },
        Err(FrameError::Serialize(err)) => Err(TransportCodecError::Decode(err)),
    }
}

/// The payloads of the whole frames at the head of `bytes`, in order.
pub open spec fn whole_frames(bytes: Seq<u8>) -> Seq<Seq<u8>>
    decreases bytes.len(),
    via whole_frames_decreases
{
    if decode_frame(bytes) is Frame {
        seq![decode_frame(bytes)->payload] + whole_frames(
            bytes.skip(decode_frame(bytes)->consumed as int),
        )
    } else {
        Seq::empty()
    }
}

/// What is left of `bytes` behind its whole frames.
pub open spec fn behind_frames(bytes: Seq<u8>) -> Seq<u8>
    decreases bytes.len(),
    via behind_frames_decreases
{
    if decode_frame(bytes) is Frame {
        behind_frames(bytes.skip(decode_frame(bytes)->consumed as int))
    } else {
        bytes
    }
}

#[via_fn]
proof fn whole_frames_decreases(bytes: Seq<u8>) {
    lemma_frame_is_not_empty(bytes);
}

#[via_fn]
proof fn behind_frames_decreases(bytes: Seq<u8>) {
    lemma_frame_is_not_empty(bytes);
}

/// Takes every whole frame off the front of `pending`.
///
/// Returns the payloads in the order of their frames. `pending` keeps what
/// follows the last whole frame: the beginning of the next one, or bytes
/// that no frame begins with, in which case the second component holds the
/// error.
pub fn take_frames(pending: &mut Vec<u8>) -> (taken: (Vec<Vec<u8>>, Option<TransportCodecError>))
    ensures
        taken.0.deep_view() == whole_frames(old(pending)@),
        final(pending)@ == behind_frames(old(pending)@),
        taken.1 is Some <==> decode_frame(behind_frames(old(pending)@)) is Malformed,
        taken.1 is Some ==> taken.1->Some_0 == TransportCodecError::Decode(
            PostcardError::DeserializeBadVarint,
        ),
{
    let mut payloads: Vec<Vec<u8>> = Vec::new();
    let mut start: usize = 0;
    let mut failure: Option<TransportCodecError> = None;
    let mut done = false;
    assert(pending@.skip(0) == pending@);
    while !done
        invariant
            start <= pending@.len(),
            pending@ == old(pending)@,
            whole_frames(pending@) == payloads.deep_view() + whole_frames(
                pending@.skip(start as int),
            ),
            behind_frames(pending@) == behind_frames(pending@.skip(start as int)),
            done ==> !(decode_frame(pending@.skip(start as int)) is Frame),
            failure is Some ==> failure->Some_0 == TransportCodecError::Decode(
                PostcardError::DeserializeBadVarint,
            ),
            done ==> (failure is Some <==> decode_frame(pending@.skip(start as int)) is Malformed),
            !done ==> failure is None,
        decreases pending@.len() - start + (if done { 0int } else { 1int }),
    {
        let rest = vstd::slice::slice_subrange(pending.as_slice(), start, pending.len());
        match try_decode_transport_frame(rest) {
            Ok(Some((payload, consumed))) => {
                proof {
                    lemma_frame_is_not_empty(rest@);
                    assert(pending@.skip(start as int).skip(consumed as int) == pending@.skip(
                        start + consumed,
                    ));
                }
                payloads.push(payload);
                assert(payload.deep_view() == payload@);
                start = start + consumed;
            },
            Ok(None) => {
                done = true;
            },
            Err(error) => {
                failure = Some(error);
                done = true;
            },
        }
    }
    let rest = pending.split_off(start);
    *pending = rest;
    (payloads, failure)
}

/// The method that a word names, whatever the case of its letters.
pub open spec fn method_named(word: Seq<u8>) -> Option<Method> {
    if same_word(word, "echo".spec_bytes()) {
        Some(Method::Echo)
    } else if same_word(word, "i2c".spec_bytes()) {
        Some(Method::I2c)
    } else if same_word(word, "spi".spec_bytes()) {
        Some(Method::Spi)
    } else if same_word(word, "uart".spec_bytes()) {
        Some(Method::Uart)
    } else if same_word(word, "pwm".spec_bytes()) {
        Some(Method::Pwm)
    } else {
        None
    }
}

/// The operation that a word names, whatever the case of its letters.
pub open spec fn operation_named(word: Seq<u8>) -> Option<Operation> {
    if same_word(word, "r".spec_bytes()) || same_word(word, "read".spec_bytes()) {
        Some(Operation::Read)
    } else if same_word(word, "w".spec_bytes()) || same_word(word, "write".spec_bytes()) {
        Some(Operation::Write)
    } else {
        None
    }
}

/// Reads a method keyword.
pub fn parse_method(word: &[u8]) -> (method: Option<Method>)
    ensures
        method == method_named(word@),
{
    if matches_word(word, "echo".as_bytes()) {
        Some(Method::Echo)
    } else if matches_word(word, "i2c".as_bytes()) {
        Some(Method::I2c)
    } else if matches_word(word, "spi".as_bytes()) {
        Some(Method::Spi)
    } else if matches_word(word, "uart".as_bytes()) {
        Some(Method::Uart)
    } else if matches_word(word, "pwm".as_bytes()) {
        Some(Method::Pwm)
    } else {
        None
    }
}

/// Reads an operation keyword.
pub fn parse_operation(word: &[u8]) -> (operation: Option<Operation>)
    ensures
        operation == operation_named(word@),
{
    if matches_word(word, "r".as_bytes()) || matches_word(word, "read".as_bytes()) {
        Some(Operation::Read)
    } else if matches_word(word, "w".as_bytes()) || matches_word(word, "write".as_bytes()) {
        Some(Operation::Write)
    } else {
        None
    }
}

/// The byte that an argument writes, or the error it is rejected with.
///
/// White space around the argument does not count. `0x` announces
/// hexadecimal digits, `0b` binary ones; everything else is decimal.
pub open spec fn argument(token: Seq<u8>, index: usize) -> Result<u8, EncodeError> {
    let text = trimmed(token);
    let digits = if starts_with(text, "0x".spec_bytes()) || starts_with(text, "0b".spec_bytes()) {
        text.skip(2)
    } else {
        text
    };
    let radix: nat = if starts_with(text, "0x".spec_bytes()) {
        16
    } else if starts_with(text, "0b".spec_bytes()) {
        2
    } else {
        10
    };
    if text.len() == 0 {
        Err(EncodeError::MissingArgument { index })
    } else if number(digits, radix) is None {
        Err(EncodeError::InvalidArgument { index })
    } else {
        Ok(number(digits, radix)->Some_0)
    }
}

proof fn lemma_radix_marks()
    ensures
        "0x".spec_bytes().len() == 2,
        "0b".spec_bytes().len() == 2,
{
    reveal_strlit("0x");
    reveal_strlit("0b");
    vstd::string::is_ascii_spec_bytes("0x");
    vstd::string::is_ascii_spec_bytes("0b");
}

/// Reads the argument at position `index` as a byte.
pub fn parse_u8(token: &[u8], index: usize) -> (outcome: Result<u8, EncodeError>)
    ensures
        outcome == argument(token@, index),
{
    proof {
        lemma_radix_marks();
    }
    let token = trim(token);
    if token.len() == 0 {
        return Err(EncodeError::MissingArgument { index });
    }
    let (radix, digits): (u32, &[u8]) = if has_prefix(token, "0x".as_bytes()) {
        (16, vstd::slice::slice_subrange(token, 2, token.len()))
    } else if has_prefix(token, "0b".as_bytes()) {
        (2, vstd::slice::slice_subrange(token, 2, token.len()))
    } else {
        (10, token)
    };
    if digits.len() == 0 {
        return Err(EncodeError::InvalidArgument { index });
    }
    match parse_number(digits, radix) {
        Some(value) => Ok(value),
        None => Err(EncodeError::InvalidArgument { index }),
    }
}

/// The command that a line selects.
pub struct Selection {
    pub method: Method,
    pub operation: Operation,
    /// What follows the keywords.
    pub rest: Seq<u8>,
}

/// The method and operation that a line selects, and the arguments it gives
/// them; or the error that the keywords are rejected with.
pub open spec fn selection(line: Seq<u8>) -> Result<Selection, EncodeError> {
    let text = trimmed(line);
    let after_method = trimmed_start(after_first_word(text));
    let method = method_named(first_word(text));
    let operation = if method == Some(Method::Echo) {
        Some(Operation::Write)
    } else {
        operation_named(first_word(after_method))
    };
    let rest = if method == Some(Method::Echo) {
        after_method
    } else {
        trimmed_start(after_first_word(after_method))
    };
    if text.len() == 0 {
        Err(EncodeError::Empty)
    } else if method is None {
        Err(EncodeError::UnknownMethod)
    } else if method != Some(Method::Echo) && after_method.len() == 0 {
        Err(EncodeError::MissingOperation)
    } else if operation is None {
        Err(EncodeError::UnknownOperation)
    } else if !is_supported(method->Some_0, operation->Some_0) {
        Err(
            EncodeError::UnsupportedOperation {
                method: method->Some_0,
                operation: operation->Some_0,
            },
        )
    } else {
        Ok(Selection { method: method->Some_0, operation: operation->Some_0, rest })
    }
}

/// The operand bytes that the arguments of a selected command write, up to
/// the first argument that is rejected, and the error of that argument.
pub open spec fn operands(selected: Selection) -> (Seq<u8>, Option<EncodeError>) {
    if selected.method == Method::Echo {
        (selected.rest, None)
    } else if selected.operation == Operation::Read {
        read_operands(selected.rest)
    } else {
        write_operands(selected.rest)
    }
}

/// The command that a selection with accepted arguments stands for.
pub open spec fn denoted(selected: Selection) -> CommandView {
    if selected.method == Method::Echo {
        CommandView::EchoWrite { payload: selected.rest }
    } else if selected.operation == Operation::Read {
        CommandView::I2cRead {
            address: operands(selected).0[0],
            register: operands(selected).0[1],
            length: operands(selected).0[2],
        }
    } else {
        CommandView::I2cWrite {
            address: operands(selected).0[0],
            register: operands(selected).0[1],
            payload: operands(selected).0.skip(2),
        }
    }
}

/// The bytes of the command that a line writes, or the error that the line
/// is rejected with.
pub open spec fn encoded(line: Seq<u8>) -> Result<Seq<u8>, EncodeError> {
    match selection(line) {
        Err(error) => Err(error),
        Ok(selected) => match operands(selected).1 {
            Some(error) => Err(error),
            None => Ok(
                seq![method_byte(selected.method), operation_byte(selected.operation)] + operands(
                    selected,
                ).0,
            ),
        },
    }
}

/// What the output holds after a line has been encoded into it: the output
/// as it was if the keywords were rejected, else the selecting bytes and
/// the operands as far as they were accepted.
pub open spec fn written(line: Seq<u8>, before: Seq<u8>) -> Seq<u8> {
    match selection(line) {
        Err(_) => before,
        Ok(selected) => seq![method_byte(selected.method), operation_byte(selected.operation)]
            + operands(selected).0,
    }
}

/// Encodes a command line into a new vector.
pub fn encode_command(input: &str) -> (outcome: Result<Vec<u8>, EncodeError>)
    ensures
        outcome is Ok <==> encoded(input.spec_bytes()) is Ok,
        outcome matches Ok(bytes) ==> bytes@ == encoded(input.spec_bytes())->Ok_0,
        outcome matches Err(error) ==> error == encoded(input.spec_bytes())->Err_0,
{
    let mut buffer: Vec<u8> = Vec::new();
    match encode_command_into(input, &mut buffer) {
        Ok(len) => {
            buffer.truncate(len);
            Ok(buffer)
        },
        Err(error) => Err(error),
    }
}

/// Encodes a command line into `output`, whose old contents are replaced.
///
/// Returns the length of the command. A line whose keywords are rejected
/// leaves `output` as it was; a line whose arguments are rejected leaves the
/// bytes that were accepted before.
pub fn encode_command_into(input: &str, output: &mut Vec<u8>) -> (outcome: Result<
    usize,
    EncodeError,
>)
    ensures
        outcome is Ok <==> encoded(input.spec_bytes()) is Ok,
        outcome matches Ok(len) ==> final(output)@ == encoded(input.spec_bytes())->Ok_0 && len
            == final(output)@.len(),
        outcome matches Err(error) ==> error == encoded(input.spec_bytes())->Err_0,
        final(output)@ == written(input.spec_bytes(), old(output)@),
{
    let trimmed = trim(input.as_bytes());
    if trimmed.len() == 0 {
        return Err(EncodeError::Empty);
    }
    let (method_keyword, tail) = split_word(trimmed);
    let post_method_remaining = trim_start(tail);
    let method = match parse_method(method_keyword) {
        Some(method) => method,
        None => {
            return Err(EncodeError::UnknownMethod);
        },
    };
    let (operation, post_operation_remaining) = if method == Method::Echo {
        (Operation::Write, post_method_remaining)
    } else {
        if post_method_remaining.len() == 0 {
            return Err(EncodeError::MissingOperation);
        }
        let (operation_keyword, tail) = split_word(post_method_remaining);
        let remainder = trim_start(tail);
        let operation = match parse_operation(operation_keyword) {
            Some(operation) => operation,
            None => {
                return Err(EncodeError::UnknownOperation);
            },
        };
        (operation, remainder)
    };
    if !supports(method, operation) {
        return Err(EncodeError::UnsupportedOperation { method, operation });
    }
    output.clear();
    output.push(method.as_byte());
    output.push(operation.as_byte());
    match (method, operation) {
        (Method::Echo, Operation::Write) => encode_echo(post_operation_remaining, output),
        (Method::I2c, Operation::Read) => encode_read_operands(post_operation_remaining, output),
        (Method::I2c, Operation::Write) => encode_write_operands(post_operation_remaining, output),
        _ => Err(EncodeError::UnsupportedOperation { method, operation }),
    }
}

/// Appends the text of an echo to `output`, byte for byte.
pub fn encode_echo(remainder: &[u8], output: &mut Vec<u8>) -> (outcome: Result<usize, EncodeError>)
    ensures
        outcome is Ok,
        final(output)@ == old(output)@ + remainder@,
        outcome->Ok_0 == final(output)@.len(),
{
    let mut index: usize = 0;
    while index < remainder.len()
        invariant
            index <= remainder@.len(),
            output@ == old(output)@ + remainder@.take(index as int),
        decreases remainder@.len() - index,
    {
        output.push(remainder[index]);
        index = index + 1;
    }
    Ok(output.len())
}

/// The firmware decodes what the host encodes.
///
/// Whenever a line is encoded, the firmware decodes the bytes to a command
/// whose wire layout is those very bytes: an echo of the text behind the
/// keyword; a read of as many bytes as the third argument says, from the
/// address and register of the first two; or a write of the data bytes of
/// the line to its address and register.
pub proof fn lemma_firmware_decodes_host_commands(line: Seq<u8>)
    requires
        encoded(line) is Ok,
    ensures
        decode_command_spec(encoded(line)->Ok_0) is Ok,
        command_bytes(decode_command_spec(encoded(line)->Ok_0)->Ok_0) == encoded(line)->Ok_0,
        decode_command_spec(encoded(line)->Ok_0)->Ok_0 == denoted(selection(line)->Ok_0),
{
    let selected = selection(line)->Ok_0;
    let bytes = encoded(line)->Ok_0;
    let written = operands(selected).0;
    assert(bytes.subrange(2, bytes.len() as int) == written);
    assert(written.subrange(2, written.len() as int) == written.skip(2));
    assert(command_bytes(denoted(selected)) == bytes);
}

} // verus!
