//! The command wire contract shared by host and firmware.
//!
//! A command is `[method][operation][operands...]`. The firmware decodes it
//! with [`decode_command`]; [`command_bytes`] states the layout that the
//! decoder accepts for each command.

use vstd::prelude::*;

verus! {

/// The phrase a host sends to open a session.
pub const HANDSHAKE_COMMAND: &'static str = "SiTerm?";

/// The firmware's answer to the handshake phrase.
pub const HANDSHAKE_RESPONSE: &'static str = "SiTerm v1.0";

/// The byte sequence that ends the handshake phrase.
pub const HANDSHAKE_DELIMITER: &'static str = "\n";

/// How long the firmware waits for the handshake, in microseconds.
pub const HANDSHAKE_TIMEOUT_MICROS: u64 = 3_000_000;

/// The bytes of [`HANDSHAKE_COMMAND`].
pub open spec fn handshake_command_bytes() -> Seq<u8> {
    seq![0x53u8, 0x69, 0x54, 0x65, 0x72, 0x6d, 0x3f]
}

/// The bytes of [`HANDSHAKE_RESPONSE`].
pub open spec fn handshake_response_bytes() -> Seq<u8> {
    seq![0x53u8, 0x69, 0x54, 0x65, 0x72, 0x6d, 0x20, 0x76, 0x31, 0x2e, 0x30]
}

/// The bytes of [`HANDSHAKE_DELIMITER`].
pub open spec fn handshake_delimiter_bytes() -> Seq<u8> {
    seq![0x0au8]
}

/// The handshake phrase as bytes.
pub fn handshake_command() -> (bytes: &'static [u8])
    ensures
        bytes@ == handshake_command_bytes(),
{
    let bytes = HANDSHAKE_COMMAND.as_bytes();
    proof {
        reveal_strlit("SiTerm?");
        vstd::string::is_ascii_spec_bytes(HANDSHAKE_COMMAND);
    }
    bytes
}

/// The handshake answer as bytes.
pub fn handshake_response() -> (bytes: &'static [u8])
    ensures
        bytes@ == handshake_response_bytes(),
{
    let bytes = HANDSHAKE_RESPONSE.as_bytes();
    proof {
        reveal_strlit("SiTerm v1.0");
        vstd::string::is_ascii_spec_bytes(HANDSHAKE_RESPONSE);
    }
    bytes
}

/// The handshake delimiter as bytes.
pub fn handshake_delimiter() -> (bytes: &'static [u8])
    ensures
        bytes@ == handshake_delimiter_bytes(),
{
    let bytes = HANDSHAKE_DELIMITER.as_bytes();
    proof {
        reveal_strlit("\n");
        vstd::string::is_ascii_spec_bytes(HANDSHAKE_DELIMITER);
    }
    bytes
}

/// The peripheral a command addresses.
#[derive(Debug, Clone, Copy, PartialEq, Eq, Structural)]
pub enum Method {
    Echo,
    I2c,
    Spi,
    Uart,
    Pwm,
}

/// The wire byte of a method.
pub open spec fn method_byte(method: Method) -> u8 {
    match method {
        Method::Echo => 0x01,
        Method::I2c => 0x02,
        Method::Spi => 0x03,
        Method::Uart => 0x04,
        Method::Pwm => 0x05,
    }
}

/// The method that a wire byte selects, if any.
pub open spec fn method_of(byte: u8) -> Option<Method> {
    if byte == 0x01 {
        Some(Method::Echo)
    } else if byte == 0x02 {
        Some(Method::I2c)
    } else if byte == 0x03 {
        Some(Method::Spi)
    } else if byte == 0x04 {
        Some(Method::Uart)
    } else if byte == 0x05 {
        Some(Method::Pwm)
    } else {
        None
    }
}

impl Method {
    /// The byte that selects this method on the wire.
    pub fn as_byte(self) -> (byte: u8)
        ensures
            byte == method_byte(self),
            method_of(byte) == Some(self),
    {
        match self {
            Method::Echo => 0x01,
            Method::I2c => 0x02,
            Method::Spi => 0x03,
            Method::Uart => 0x04,
            Method::Pwm => 0x05,
        }
    }

    /// The method selected by `byte`; `None` for every byte outside 1..=5.
    pub fn from_byte(byte: u8) -> (method: Option<Self>)
        ensures
            method == method_of(byte),
            method matches Some(m) ==> method_byte(m) == byte,
            method is None <==> !(1 <= byte <= 5),
    {
        if byte == 0x01 {
            Some(Method::Echo)
        } else if byte == 0x02 {
            Some(Method::I2c)
        } else if byte == 0x03 {
            Some(Method::Spi)
        } else if byte == 0x04 {
            Some(Method::Uart)
        } else if byte == 0x05 {
            Some(Method::Pwm)
        } else {
            None
        }
    }
}

/// The direction of a command.
#[derive(Debug, Clone, Copy, PartialEq, Eq, Structural)]
pub enum Operation {
    Read,
    Write,
}

/// The wire byte of an operation.
pub open spec fn operation_byte(operation: Operation) -> u8 {
    match operation {
        Operation::Read => 0x01,
        Operation::Write => 0x02,
    }
}

/// The operation that a wire byte selects, if any.
pub open spec fn operation_of(byte: u8) -> Option<Operation> {
    if byte == 0x01 {
        Some(Operation::Read)
    } else if byte == 0x02 {
        Some(Operation::Write)
    } else {
        None
    }
}

impl Operation {
    /// The byte that selects this operation on the wire.
    pub fn as_byte(self) -> (byte: u8)
        ensures
            byte == operation_byte(self),
            operation_of(byte) == Some(self),
    {
        match self {
            Operation::Read => 0x01,
            Operation::Write => 0x02,
        }
    }

    /// The operation selected by `byte`; `None` for every byte but 1 and 2.
    pub fn from_byte(byte: u8) -> (operation: Option<Self>)
        ensures
            operation == operation_of(byte),
            operation matches Some(o) ==> operation_byte(o) == byte,
            operation is None <==> !(1 <= byte <= 2),
    {
        if byte == 0x01 {
            Some(Operation::Read)
        } else if byte == 0x02 {
            Some(Operation::Write)
        } else {
            None
        }
    }
}

/// One entry of the dictionary of supported commands.
#[derive(Debug)]
pub struct CommandDefinition {
    pub method: Method,
    pub operation: Operation,
}

/// Whether the dictionary of supported commands holds the pair.
pub open spec fn is_supported(method: Method, operation: Operation) -> bool {
    ||| method == Method::Echo && operation == Operation::Write
    ||| method == Method::I2c && operation == Operation::Read
    ||| method == Method::I2c && operation == Operation::Write
}

/// The commands that the firmware executes.
pub fn command_dictionary() -> (entries: [CommandDefinition; 3])
    ensures
        forall|method: Method, operation: Operation|
            is_supported(method, operation) <==> exists|k: int|
                0 <= k < 3 && (#[trigger] entries[k]).method == method && entries[k].operation
                    == operation,
{
    let entries = [
        CommandDefinition { method: Method::Echo, operation: Operation::Write },
        CommandDefinition { method: Method::I2c, operation: Operation::Read },
        CommandDefinition { method: Method::I2c, operation: Operation::Write },
    ];
    entries
}

/// Looks the pair up in the dictionary.
pub fn supports(method: Method, operation: Operation) -> (found: bool)
    ensures
        found == is_supported(method, operation),
{
    let entries = command_dictionary();
    let mut index: usize = 0;
    let mut found = false;
    while index < 3
        invariant
            index <= 3,
            found == exists|k: int|
                0 <= k < index && (#[trigger] entries[k]).method == method && entries[k].operation
                    == operation,
        decreases 3 - index,
    {
        let entry = &entries[index];
        if entry.method == method && entry.operation == operation {
            found = true;
        }
        index = index + 1;
    }
    found
}

/// Why a byte sequence is no command.
#[derive(Debug, Clone, Copy, PartialEq, Eq, Structural)]
pub enum ProtocolError {
    /// The method byte or the operation byte is missing.
    Empty,
    /// The first byte selects no method.
    UnknownMethod(u8),
    /// The second byte selects no operation.
    UnknownOperation(u8),
    /// The pair is not in the dictionary.
    UnsupportedOperation { method: Method, operation: Operation },
    /// The operands are too short for the command.
    MalformedPayload { method: Method, operation: Operation },
}

/// A decoded command that borrows its payload from the decoded bytes.
#[derive(Debug, Clone, Copy, PartialEq, Eq)]
pub enum Command<'a> {
    EchoWrite { payload: &'a [u8] },
    I2cRead { address: u8, register: u8, length: u8 },
    I2cWrite { address: u8, register: u8, payload: &'a [u8] },
}

/// A command as a mathematical value.
pub enum CommandView {
    EchoWrite { payload: Seq<u8> },
    I2cRead { address: u8, register: u8, length: u8 },
    I2cWrite { address: u8, register: u8, payload: Seq<u8> },
}

impl<'a> View for Command<'a> {
    type V = CommandView;

    open spec fn view(&self) -> CommandView {
        match *self {
            Command::EchoWrite { payload } => CommandView::EchoWrite { payload: payload@ },
            Command::I2cRead { address, register, length } => CommandView::I2cRead {
                address,
                register,
                length,
            },
            Command::I2cWrite { address, register, payload } => CommandView::I2cWrite {
                address,
                register,
                payload: payload@,
            },
        }
    }
}

/// The wire layout of a command.
pub open spec fn command_bytes(command: CommandView) -> Seq<u8> {
    match command {
        CommandView::EchoWrite { payload } => seq![0x01u8, 0x02] + payload,
        CommandView::I2cRead { address, register, length } => seq![
            0x02u8,
            0x01,
            address,
            register,
            length,
        ],
        CommandView::I2cWrite { address, register, payload } => seq![
            0x02u8,
            0x02,
            address,
            register,
        ] + payload,
    }
}

/// What the firmware makes of a byte sequence.
pub open spec fn decode_command_spec(bytes: Seq<u8>) -> Result<CommandView, ProtocolError> {
    if bytes.len() < 1 {
        Err(ProtocolError::Empty)
    } else if method_of(bytes[0]) is None {
        Err(ProtocolError::UnknownMethod(bytes[0]))
    } else if bytes.len() < 2 {
        Err(ProtocolError::Empty)
    } else if operation_of(bytes[1]) is None {
        Err(ProtocolError::UnknownOperation(bytes[1]))
    } else {
        let method = method_of(bytes[0])->Some_0;
        let operation = operation_of(bytes[1])->Some_0;
        let operands = bytes.subrange(2, bytes.len() as int);
        if method == Method::Echo && operation == Operation::Write {
            Ok(CommandView::EchoWrite { payload: operands })
        } else if method == Method::I2c && operation == Operation::Read {
            if operands.len() < 3 {
                Err(ProtocolError::MalformedPayload { method, operation })
            } else {
                Ok(
                    CommandView::I2cRead {
                        address: operands[0],
                        register: operands[1],
                        length: operands[2],
                    },
                )
            }
        } else if method == Method::I2c && operation == Operation::Write {
            if operands.len() < 2 {
                Err(ProtocolError::MalformedPayload { method, operation })
            } else {
                Ok(
                    CommandView::I2cWrite {
                        address: operands[0],
                        register: operands[1],
                        payload: operands.subrange(2, operands.len() as int),
                    },
                )
            }
        } else {
            Err(ProtocolError::UnsupportedOperation { method, operation })
        }
    }
}

/// Decodes one command.
///
/// The first byte selects the method and the second the operation; the rest
/// are the operands. A read on the bus takes its address, register and
/// length from the first three operands, a write its address and register
/// from the first two and its payload from the rest.
pub fn decode_command<'a>(buffer: &'a [u8]) -> (outcome: Result<Command<'a>, ProtocolError>)
    ensures
        outcome is Ok <==> decode_command_spec(buffer@) is Ok,
        outcome matches Ok(command) ==> decode_command_spec(buffer@)->Ok_0 == command@,
        outcome matches Err(error) ==> decode_command_spec(buffer@)->Err_0 == error,
{
    if buffer.len() < 1 {
        return Err(ProtocolError::Empty);
    }
    let method_byte = buffer[0];
    let method = match Method::from_byte(method_byte) {
        Some(method) => method,
        None => {
            return Err(ProtocolError::UnknownMethod(method_byte));
        },
    };
    if buffer.len() < 2 {
        return Err(ProtocolError::Empty);
    }
    let operation_byte = buffer[1];
    let operation = match Operation::from_byte(operation_byte) {
        Some(operation) => operation,
        None => {
            return Err(ProtocolError::UnknownOperation(operation_byte));
        },
    };
    let payload = vstd::slice::slice_subrange(buffer, 2, buffer.len());
    match (method, operation) {
        (Method::Echo, Operation::Write) => Ok(Command::EchoWrite { payload }),
        (Method::I2c, Operation::Read) => {
            if payload.len() < 3 {
                return Err(ProtocolError::MalformedPayload { method, operation });
            }
            Ok(Command::I2cRead { address: payload[0], register: payload[1], length: payload[2] })
        },
        (Method::I2c, Operation::Write) => {
            if payload.len() < 2 {
                return Err(ProtocolError::MalformedPayload { method, operation });
            }
            let data = vstd::slice::slice_subrange(payload, 2, payload.len());
            Ok(Command::I2cWrite { address: payload[0], register: payload[1], payload: data })
        },
        _ => Err(ProtocolError::UnsupportedOperation { method, operation }),
    }
}

/// The decoder inverts the wire layout: the bytes laid out for a command
/// decode to that command.
pub proof fn lemma_decode_inverts_layout(command: CommandView)
    ensures
        decode_command_spec(command_bytes(command)) is Ok,
        decode_command_spec(command_bytes(command))->Ok_0 == command,
{
    let bytes = command_bytes(command);
    let operands = bytes.subrange(2, bytes.len() as int);
    match command {
        CommandView::EchoWrite { payload } => {
            assert(operands =~= payload);
        },
        CommandView::I2cRead { .. } => {},
        CommandView::I2cWrite { payload, .. } => {
            assert(operands.subrange(2, operands.len() as int) =~= payload);
        },
    }
}

/// A pair outside the dictionary is rejected whatever its operands are.
pub proof fn lemma_unsupported_pairs_are_rejected(
    method: Method,
    operation: Operation,
    operands: Seq<u8>,
)
    requires
        !is_supported(method, operation),
    ensures
        decode_command_spec(seq![method_byte(method), operation_byte(operation)] + operands)
            is Err,
        decode_command_spec(
            seq![method_byte(method), operation_byte(operation)] + operands,
        )->Err_0 == (ProtocolError::UnsupportedOperation { method, operation }),
{
}

} // verus!
