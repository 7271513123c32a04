//! The arguments of the bus commands.

use vstd::prelude::*;
use vstd::string::StringSliceAdditionalSpecFns;

use crate::host::text::{after_first_token, first_token, lemma_token_shortens, next_token};
use crate::host::{argument, parse_u8, EncodeError};

verus! {

/// The operands of `i2c read <address> <register> <length>`: the three
/// bytes, and no error; or nothing, and the error of the first fault. A
/// missing argument is found before a fourth one, and that before a number
/// that is none.
pub open spec fn read_operands(rest: Seq<u8>) -> (Seq<u8>, Option<EncodeError>) {
    let second = after_first_token(rest);
    let third = after_first_token(second);
    let fourth = after_first_token(third);
    if first_token(rest) is None {
        (Seq::empty(), Some(EncodeError::MissingArgument { index: 0 }))
    } else if first_token(second) is None {
        (Seq::empty(), Some(EncodeError::MissingArgument { index: 1 }))
    } else if first_token(third) is None {
        (Seq::empty(), Some(EncodeError::MissingArgument { index: 2 }))
    } else if first_token(fourth) is Some {
        (Seq::empty(), Some(EncodeError::UnexpectedArgument { index: 3 }))
    } else if argument(first_token(rest)->Some_0, 0) is Err {
        (Seq::empty(), Some(argument(first_token(rest)->Some_0, 0)->Err_0))
    } else if argument(first_token(second)->Some_0, 1) is Err {
        (Seq::empty(), Some(argument(first_token(second)->Some_0, 1)->Err_0))
    } else if argument(first_token(third)->Some_0, 2) is Err {
        (Seq::empty(), Some(argument(first_token(third)->Some_0, 2)->Err_0))
    } else {
        (
            seq![
                argument(first_token(rest)->Some_0, 0)->Ok_0,
                argument(first_token(second)->Some_0, 1)->Ok_0,
                argument(first_token(third)->Some_0, 2)->Ok_0,
            ],
            None,
        )
    }
}

/// The number of arguments in `bytes`.
pub open spec fn token_count(bytes: Seq<u8>) -> nat
    decreases bytes.len(),
    via token_count_decreases
{
    if first_token(bytes) is None {
        0
    } else {
        1 + token_count(after_first_token(bytes))
    }
}

#[via_fn]
proof fn token_count_decreases(bytes: Seq<u8>) {
    lemma_token_shortens(bytes);
}

/// The bytes that the arguments in `bytes` write, the first of them being
/// argument number `index` of its line: all of them and no error, or those
/// in front of the first argument that is rejected, and its error.
pub open spec fn data_operands(bytes: Seq<u8>, index: nat) -> (Seq<u8>, Option<EncodeError>)
    decreases bytes.len(),
    via data_operands_decreases
{
    if first_token(bytes) is None {
        (Seq::empty(), None)
    } else if argument(first_token(bytes)->Some_0, index as usize) is Err {
        (Seq::empty(), Some(argument(first_token(bytes)->Some_0, index as usize)->Err_0))
    } else {
        (
            seq![argument(first_token(bytes)->Some_0, index as usize)->Ok_0] + data_operands(
                after_first_token(bytes),
                index + 1,
            ).0,
            data_operands(after_first_token(bytes), index + 1).1,
        )
    }
}

#[via_fn]
proof fn data_operands_decreases(bytes: Seq<u8>, index: nat) {
    lemma_token_shortens(bytes);
}

/// The operands of `i2c write <address> <register> <byte> [<byte> ...]`:
/// address, register, and the data bytes.
///
/// A missing argument is found first, then more than 255 data bytes, then an
/// address or register that is no number; nothing is written in these
/// cases. A data byte that is no number ends the operands in front of it.
pub open spec fn write_operands(rest: Seq<u8>) -> (Seq<u8>, Option<EncodeError>) {
    let second = after_first_token(rest);
    let data = after_first_token(second);
    if first_token(rest) is None {
        (Seq::empty(), Some(EncodeError::MissingArgument { index: 0 }))
    } else if first_token(second) is None {
        (Seq::empty(), Some(EncodeError::MissingArgument { index: 1 }))
    } else if token_count(data) == 0 {
        (Seq::empty(), Some(EncodeError::MissingArgument { index: 2 }))
    } else if token_count(data) > 255 {
        (Seq::empty(), Some(EncodeError::InvalidArgument { index: 2 }))
    } else if argument(first_token(rest)->Some_0, 0) is Err {
        (Seq::empty(), Some(argument(first_token(rest)->Some_0, 0)->Err_0))
    } else if argument(first_token(second)->Some_0, 1) is Err {
        (Seq::empty(), Some(argument(first_token(second)->Some_0, 1)->Err_0))
    } else {
        (
            seq![
                argument(first_token(rest)->Some_0, 0)->Ok_0,
                argument(first_token(second)->Some_0, 1)->Ok_0,
            ] + data_operands(data, 2).0,
            data_operands(data, 2).1,
        )
    }
}

/// Appends the operands of a bus read to `output`.
pub fn encode_read_operands(remainder: &[u8], output: &mut Vec<u8>) -> (outcome: Result<
    usize,
    EncodeError,
>)
    ensures
        final(output)@ == old(output)@ + read_operands(remainder@).0,
        outcome is Ok <==> read_operands(remainder@).1 is None,
        outcome matches Ok(len) ==> len == final(output)@.len(),
        outcome matches Err(error) ==> read_operands(remainder@).1 == Some(error),
{
    let (addr, rest) = match next_token(remainder) {
        Some(parts) => parts,
        None => {
            return Err(EncodeError::MissingArgument { index: 0 });
        },
    };
    let (register, rest) = match next_token(rest) {
        Some(parts) => parts,
        None => {
            return Err(EncodeError::MissingArgument { index: 1 });
        },
    };
    let (length, rest) = match next_token(rest) {
        Some(parts) => parts,
        None => {
            return Err(EncodeError::MissingArgument { index: 2 });
        },
    };
    if next_token(rest).is_some() {
        return Err(EncodeError::UnexpectedArgument { index: 3 });
    }
    let address = match parse_u8(addr, 0) {
        Ok(address) => address,
        Err(error) => {
            return Err(error);
        },
    };
    let register = match parse_u8(register, 1) {
        Ok(register) => register,
        Err(error) => {
            return Err(error);
        },
    };
    let length = match parse_u8(length, 2) {
        Ok(length) => length,
        Err(error) => {
            return Err(error);
        },
    };
    output.push(address);
    output.push(register);
    output.push(length);
    Ok(output.len())
}

/// Counts the arguments in `bytes`, but no further than one beyond `limit`.
fn count_tokens(bytes: &[u8], limit: usize) -> (count: usize)
    requires
        limit < usize::MAX,
    ensures
        token_count(bytes@) <= limit ==> count == token_count(bytes@),
        token_count(bytes@) > limit ==> count == limit + 1,
{
    let mut count: usize = 0;
    let mut cursor = bytes;
    while count <= limit
        invariant
            count <= limit + 1,
            limit < usize::MAX,
            token_count(bytes@) == count + token_count(cursor@),
        decreases limit + 1 - count,
    {
        match next_token(cursor) {
            None => {
                return count;
            },
            Some((_, rest)) => {
                count = count + 1;
                cursor = rest;
            },
        }
    }
    count
}

/// Appends the operands of a bus write to `output`.
pub fn encode_write_operands(remainder: &[u8], output: &mut Vec<u8>) -> (outcome: Result<
    usize,
    EncodeError,
>)
    ensures
        final(output)@ == old(output)@ + write_operands(remainder@).0,
        outcome is Ok <==> write_operands(remainder@).1 is None,
        outcome matches Ok(len) ==> len == final(output)@.len(),
        outcome matches Err(error) ==> write_operands(remainder@).1 == Some(error),
{
    let (addr, rest) = match next_token(remainder) {
        Some(parts) => parts,
        None => {
            return Err(EncodeError::MissingArgument { index: 0 });
        },
    };
    let (register, data) = match next_token(rest) {
        Some(parts) => parts,
        None => {
            return Err(EncodeError::MissingArgument { index: 1 });
        },
    };
    let count = count_tokens(data, 255);
    if count == 0 {
        return Err(EncodeError::MissingArgument { index: 2 });
    }
    if count > 255 {
        return Err(EncodeError::InvalidArgument { index: 2 });
    }
    let address = match parse_u8(addr, 0) {
        Ok(address) => address,
        Err(error) => {
            return Err(error);
        },
    };
    let register = match parse_u8(register, 1) {
        Ok(register) => register,
        Err(error) => {
            return Err(error);
        },
    };
    output.push(address);
    output.push(register);
    let ghost head = old(output)@ + seq![address, register];
    let mut cursor = data;
    let mut index: usize = 2;
    loop
        invariant
            2 <= index <= 257,
            token_count(cursor@) + index <= 257,
            old(output)@ + write_operands(remainder@).0 == head + data_operands(data@, 2).0,
            write_operands(remainder@).1 == data_operands(data@, 2).1,
            head + data_operands(data@, 2).0 == output@ + data_operands(cursor@, index as nat).0,
            data_operands(data@, 2).1 == data_operands(cursor@, index as nat).1,
        decreases cursor@.len(),
    {
        let (token, rest) = match next_token(cursor) {
            Some(parts) => parts,
            None => {
                return Ok(output.len());
            },
        };
        let byte = match parse_u8(token, index) {
            Ok(byte) => byte,
            Err(error) => {
                return Err(error);
            },
        };
        output.push(byte);
        cursor = rest;
        index = index + 1;
    }
}

/// Appends the operands of `i2c read <address> <register> <length>` to
/// `output`: the three bytes, in this order.
///
/// Returns the new length of `output`. Nothing is appended when an argument
/// is missing, when a fourth one is there, or when one is no byte.
pub fn encode_i2c_read(remainder: &str, output: &mut Vec<u8>) -> (outcome: Result<
    usize,
    EncodeError,
>)
    ensures
        final(output)@ == old(output)@ + read_operands(remainder.spec_bytes()).0,
        outcome is Ok <==> read_operands(remainder.spec_bytes()).1 is None,
        outcome matches Ok(len) ==> len == final(output)@.len(),
        outcome matches Err(error) ==> read_operands(remainder.spec_bytes()).1 == Some(error),
{
    encode_read_operands(remainder.as_bytes(), output)
}

/// Appends the operands of `i2c write <address> <register> <byte> ...` to
/// `output`: address, register, the data bytes. There is at least one data
/// byte, and there are at most 255.
///
/// Returns the new length of `output`. A data byte that is no number ends
/// the operands in front of it; every other fault appends nothing.
pub fn encode_i2c_write(remainder: &str, output: &mut Vec<u8>) -> (outcome: Result<
    usize,
    EncodeError,
>)
    ensures
        final(output)@ == old(output)@ + write_operands(remainder.spec_bytes()).0,
        outcome is Ok <==> write_operands(remainder.spec_bytes()).1 is None,
        outcome matches Ok(len) ==> len == final(output)@.len(),
        outcome matches Err(error) ==> write_operands(remainder.spec_bytes()).1 == Some(error),
{
    encode_write_operands(remainder.as_bytes(), output)
}

} // verus!
