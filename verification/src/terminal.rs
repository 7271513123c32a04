//! What the terminal shows: device messages as text, and the reasons why a
//! command line was not sent.

use vstd::prelude::*;
use vstd::string::StringExecFns;
use vstd::utf8::{decode_utf8, valid_utf8};

use crate::host::EncodeError;
use crate::protocol::{Method, Operation};

verus! {

/// The screens of the terminal.
#[derive(Debug, Copy, Clone, PartialEq, Eq, Hash, Structural)]
pub enum Mode {
    Preconnect,
    Connecting,
    Main,
    Error,
}

impl Default for Mode {
    fn default() -> (mode: Self)
        ensures
            mode == Mode::Preconnect,
    {
        Mode::Preconnect
    }
}

/// The help texts of the terminal.
#[derive(Debug, Copy, Clone, PartialEq, Eq, Structural)]
pub enum HelpContext {
    Preconnect,
    Connected,
}

impl HelpContext {
    /// The title of the help text.
    pub fn title(self) -> (title: &'static str)
        ensures
            self == HelpContext::Preconnect ==> title@ == "Preconnect Help"@,
            self == HelpContext::Connected ==> title@ == "Connected Help"@,
    {
        match self {
            HelpContext::Preconnect => "Preconnect Help",
            HelpContext::Connected => "Connected Help",
        }
    }
}

/// The help text that belongs to a screen: the screens on which a port is
/// chosen or a session runs have one, the others none.
pub fn help_context_for_mode(mode: Mode) -> (context: Option<HelpContext>)
    ensures
        mode == Mode::Preconnect ==> context == Some(HelpContext::Preconnect),
        mode == Mode::Main ==> context == Some(HelpContext::Connected),
        mode == Mode::Connecting || mode == Mode::Error ==> context is None,
{
    match mode {
        Mode::Preconnect => Some(HelpContext::Preconnect),
        Mode::Main => Some(HelpContext::Connected),
        _ => None,
    }
}

/// How the bytes of a device message are shown.
#[derive(Debug, Clone, Copy, PartialEq, Eq, Structural)]
pub enum MessageEncoding {
    Utf8,
    Hex,
    Binary,
}

impl Default for MessageEncoding {
    fn default() -> (encoding: Self)
        ensures
            encoding == MessageEncoding::Utf8,
    {
        MessageEncoding::Utf8
    }
}

impl MessageEncoding {
    /// The name of the encoding on the screen.
    pub fn label(&self) -> (label: &'static str)
        ensures
            *self == MessageEncoding::Utf8 ==> label@ == "UTF-8"@,
            *self == MessageEncoding::Hex ==> label@ == "Hex"@,
            *self == MessageEncoding::Binary ==> label@ == "Binary"@,
    {
        match self {
            MessageEncoding::Utf8 => "UTF-8",
            MessageEncoding::Hex => "Hex",
            MessageEncoding::Binary => "Binary",
        }
    }
}

/// What the device has sent, or what the terminal has to say.
#[derive(Debug, Clone, PartialEq, Eq)]
pub enum DeviceMessage {
    Text(String),
    Bytes(Vec<u8>),
}

/// The digit of `value` in a radix up to 16, with capital letters.
pub open spec fn digit_char(value: int) -> char {
    if value == 0 {
        '0'
    } else if value == 1 {
        '1'
    } else if value == 2 {
        '2'
    } else if value == 3 {
        '3'
    } else if value == 4 {
        '4'
    } else if value == 5 {
        '5'
    } else if value == 6 {
        '6'
    } else if value == 7 {
        '7'
    } else if value == 8 {
        '8'
    } else if value == 9 {
        '9'
    } else if value == 10 {
        'A'
    } else if value == 11 {
        'B'
    } else if value == 12 {
        'C'
    } else if value == 13 {
        'D'
    } else if value == 14 {
        'E'
    } else {
        'F'
    }
}

/// The two hexadecimal digits of a byte.
pub open spec fn hex_pair(byte: u8) -> Seq<char> {
    seq![digit_char(byte as int / 16), digit_char(byte as int % 16)]
}

/// The eight binary digits of a byte.
pub open spec fn bits(byte: u8) -> Seq<char> {
    seq![
        digit_char(byte as int / 128 % 2),
        digit_char(byte as int / 64 % 2),
        digit_char(byte as int / 32 % 2),
        digit_char(byte as int / 16 % 2),
        digit_char(byte as int / 8 % 2),
        digit_char(byte as int / 4 % 2),
        digit_char(byte as int / 2 % 2),
        digit_char(byte as int % 2),
    ]
}

/// The hexadecimal digits of `bytes`, a space between each two bytes.
pub open spec fn hex_body(bytes: Seq<u8>) -> Seq<char>
    decreases bytes.len(),
{
    if bytes.len() == 0 {
        Seq::empty()
    } else if bytes.len() == 1 {
        hex_pair(bytes[0])
    } else {
        hex_body(bytes.drop_last()) + seq![' '] + hex_pair(bytes.last())
    }
}

/// `bytes` in hexadecimal: `0x`, then two digits for every byte, a space
/// between each two bytes; `<empty>` for no bytes.
pub open spec fn hex_text(bytes: Seq<u8>) -> Seq<char> {
    if bytes.len() == 0 {
        "<empty>"@
    } else {
        "0x"@ + hex_body(bytes)
    }
}

/// `bytes` in binary: `0b` and eight digits for every byte, a space between
/// each two bytes.
pub open spec fn binary_body(bytes: Seq<u8>) -> Seq<char>
    decreases bytes.len(),
{
    if bytes.len() == 0 {
        Seq::empty()
    } else if bytes.len() == 1 {
        "0b"@ + bits(bytes[0])
    } else {
        binary_body(bytes.drop_last()) + seq![' '] + "0b"@ + bits(bytes.last())
    }
}

/// `bytes` in binary; `<empty>` for no bytes.
pub open spec fn binary_text(bytes: Seq<u8>) -> Seq<char> {
    if bytes.len() == 0 {
        "<empty>"@
    } else {
        binary_body(bytes)
    }
}

/// The decimal digits of `value`.
pub open spec fn decimal_text(value: nat) -> Seq<char>
    decreases value,
{
    if value < 10 {
        seq![digit_char(value as int)]
    } else {
        decimal_text(value / 10) + seq![digit_char(value as int % 10)]
    }
}

/// One digit as text.
fn digit_text(value: u8) -> (text: &'static str)
    requires
        value < 16,
    ensures
        text@ == seq![digit_char(value as int)],
{
    proof {
        reveal_strlit("0");
        reveal_strlit("1");
        reveal_strlit("2");
        reveal_strlit("3");
        reveal_strlit("4");
        reveal_strlit("5");
        reveal_strlit("6");
        reveal_strlit("7");
        reveal_strlit("8");
        reveal_strlit("9");
        reveal_strlit("A");
        reveal_strlit("B");
        reveal_strlit("C");
        reveal_strlit("D");
        reveal_strlit("E");
        reveal_strlit("F");
    }
    let text = if value == 0 {
        "0"
    } else if value == 1 {
        "1"
    } else if value == 2 {
        "2"
    } else if value == 3 {
        "3"
    } else if value == 4 {
        "4"
    } else if value == 5 {
        "5"
    } else if value == 6 {
        "6"
    } else if value == 7 {
        "7"
    } else if value == 8 {
        "8"
    } else if value == 9 {
        "9"
    } else if value == 10 {
        "A"
    } else if value == 11 {
        "B"
    } else if value == 12 {
        "C"
    } else if value == 13 {
        "D"
    } else if value == 14 {
        "E"
    } else {
        "F"
    };
    text
}

fn push_hex_pair(output: &mut String, byte: u8)
    ensures
        final(output)@ == old(output)@ + hex_pair(byte),
{
    output.append(digit_text(byte / 16));
    output.append(digit_text(byte % 16));
}

fn push_bits(output: &mut String, byte: u8)
    ensures
        final(output)@ == old(output)@ + bits(byte),
{
    output.append(digit_text(byte / 128 % 2));
    output.append(digit_text(byte / 64 % 2));
    output.append(digit_text(byte / 32 % 2));
    output.append(digit_text(byte / 16 % 2));
    output.append(digit_text(byte / 8 % 2));
    output.append(digit_text(byte / 4 % 2));
    output.append(digit_text(byte / 2 % 2));
    output.append(digit_text(byte % 2));
}

fn push_decimal(output: &mut String, value: usize)
    ensures
        final(output)@ == old(output)@ + decimal_text(value as nat),
    decreases value,
{
    if value >= 10 {
        push_decimal(output, value / 10);
    }
    output.append(digit_text((value % 10) as u8));
}

/// Shows `bytes` in hexadecimal.
pub fn format_hex(bytes: &[u8]) -> (text: String)
    ensures
        text@ == hex_text(bytes@),
{
    if bytes.len() == 0 {
        return String::from_str("<empty>");
    }
    let mut output = String::from_str("0x");
    let mut index: usize = 0;
    while index < bytes.len()
        invariant
            index <= bytes@.len(),
            output@ == "0x"@ + hex_body(bytes@.take(index as int)),
        decreases bytes@.len() - index,
    {
        if index > 0 {
            proof {
                reveal_strlit(" ");
            }
            output.append(" ");
        }
        push_hex_pair(&mut output, bytes[index]);
        assert(bytes@.take(index + 1).drop_last() == bytes@.take(index as int));
        index = index + 1;
    }
    assert(bytes@.take(index as int) == bytes@);
    output
}

/// Shows `bytes` in binary.
pub fn format_binary(bytes: &[u8]) -> (text: String)
    ensures
        text@ == binary_text(bytes@),
{
    if bytes.len() == 0 {
        return String::from_str("<empty>");
    }
    let mut output = String::new();
    let mut index: usize = 0;
    while index < bytes.len()
        invariant
            index <= bytes@.len(),
            output@ == binary_body(bytes@.take(index as int)),
        decreases bytes@.len() - index,
    {
        if index > 0 {
            proof {
                reveal_strlit(" ");
            }
            output.append(" ");
        }
        output.append("0b");
        push_bits(&mut output, bytes[index]);
        assert(bytes@.take(index + 1).drop_last() == bytes@.take(index as int));
        index = index + 1;
    }
    assert(bytes@.take(index as int) == bytes@);
    output
}

/// Shows `bytes` in hexadecimal.
pub fn bytes_to_hex(bytes: Vec<u8>) -> (text: String)
    ensures
        text@ == hex_text(bytes@),
{
    format_hex(bytes.as_slice())
}

/// The text that `String::from_utf8_lossy` makes of `bytes`: their text,
/// with a replacement character for every malformed sequence.
pub uninterp spec fn lossy_text(bytes: Seq<u8>) -> Seq<char>;

/// `String::from_utf8`: the text that the bytes encode, or, when they are no
/// UTF-8, the bytes handed back (taken out of the error with `into_bytes`).
#[verifier::external_body]
fn text_from_utf8(bytes: Vec<u8>) -> (outcome: Result<String, Vec<u8>>)
    ensures
        outcome is Ok <==> valid_utf8(bytes@),
        outcome matches Ok(text) ==> text@ == decode_utf8(bytes@),
        outcome matches Err(returned) ==> returned@ == bytes@,
{
    match String::from_utf8(bytes) {
        Ok(text) => Ok(text),
        Err(error) => Err(error.into_bytes()),
    }
}

/// `String::from_utf8_lossy`, as an owned string: the text that is named
/// `lossy_text`.
#[verifier::external_body]
fn text_from_utf8_lossy(bytes: &[u8]) -> (text: String)
    ensures
        text@ == lossy_text(bytes@),
{
    String::from_utf8_lossy(bytes).into_owned()
}

/// The text of a payload: what it encodes if it is UTF-8, else its bytes in
/// hexadecimal.
pub open spec fn message_text(payload: Seq<u8>) -> Seq<char> {
    if valid_utf8(payload) {
        decode_utf8(payload)
    } else {
        hex_text(payload)
    }
}

/// Turns a payload into the text that the terminal shows for it.
pub fn payload_to_message(payload: Vec<u8>) -> (text: String)
    ensures
        text@ == message_text(payload@),
{
    match text_from_utf8(payload) {
        Ok(text) => text,
        Err(bytes) => bytes_to_hex(bytes),
    }
}

/// `bytes` in the given encoding; `<empty>` for no bytes.
pub open spec fn shown(bytes: Seq<u8>, encoding: MessageEncoding) -> Seq<char> {
    match encoding {
        MessageEncoding::Utf8 => if bytes.len() == 0 {
            "<empty>"@
        } else {
            lossy_text(bytes)
        },
        MessageEncoding::Hex => hex_text(bytes),
        MessageEncoding::Binary => binary_text(bytes),
    }
}

/// Shows `bytes` in the given encoding.
pub fn format_bytes(bytes: &[u8], encoding: MessageEncoding) -> (text: String)
    ensures
        text@ == shown(bytes@, encoding),
{
    match encoding {
        MessageEncoding::Utf8 => {
            if bytes.len() == 0 {
                String::from_str("<empty>")
            } else {
                text_from_utf8_lossy(bytes)
            }
        },
        MessageEncoding::Hex => format_hex(bytes),
        MessageEncoding::Binary => format_binary(bytes),
    }
}

/// Shows a message: text as it is, bytes in the given encoding.
pub fn render_message_text(message: &DeviceMessage, encoding: MessageEncoding) -> (text: String)
    ensures
        message matches DeviceMessage::Text(inner) ==> text@ == inner@,
        message matches DeviceMessage::Bytes(bytes) ==> text@ == shown(bytes@, encoding),
{
    match message {
        DeviceMessage::Text(inner) => inner.clone(),
        DeviceMessage::Bytes(bytes) => format_bytes(bytes.as_slice(), encoding),
    }
}

/// The name of a method in a message.
pub open spec fn method_name(method: Method) -> Seq<char> {
    match method {
        Method::Echo => "Echo"@,
        Method::I2c => "I2c"@,
        Method::Spi => "Spi"@,
        Method::Uart => "Uart"@,
        Method::Pwm => "Pwm"@,
    }
}

/// The name of an operation in a message.
pub open spec fn operation_name(operation: Operation) -> Seq<char> {
    match operation {
        Operation::Read => "Read"@,
        Operation::Write => "Write"@,
    }
}

/// The reason that the terminal gives for a rejected command line.
/// Positions of arguments are counted from one.
pub open spec fn encode_error_text(error: EncodeError) -> Seq<char> {
    match error {
        EncodeError::Empty => "command is empty"@,
        EncodeError::UnknownMethod => "unknown method"@,
        EncodeError::UnknownOperation => "unknown operation"@,
        EncodeError::UnsupportedOperation { method, operation } => "unsupported operation "@
            + operation_name(operation) + " for method "@ + method_name(method),
        EncodeError::MissingOperation => "missing operation keyword"@,
        EncodeError::MissingArgument { index } => "missing argument at position "@ + decimal_text(
            (index + 1) as nat,
        ),
        EncodeError::UnexpectedArgument { index } => "unexpected argument starting at position "@
            + decimal_text((index + 1) as nat),
        EncodeError::InvalidArgument { index } => "invalid argument at position "@ + decimal_text(
            (index + 1) as nat,
        ),
        EncodeError::OutputTooSmall => "output buffer is too small"@,
    }
}

/// Whether the position that an error names can be counted from one.
pub open spec fn position_fits(error: EncodeError) -> bool {
    match error {
        EncodeError::MissingArgument { index } => index < usize::MAX,
        EncodeError::UnexpectedArgument { index } => index < usize::MAX,
        EncodeError::InvalidArgument { index } => index < usize::MAX,
        _ => true,
    }
}

/// Says why a command line was rejected.
pub fn format_encode_error(error: EncodeError) -> (text: String)
    requires
        position_fits(error),
    ensures
        text@ == encode_error_text(error),
{
    match error {
        EncodeError::Empty => String::from_str("command is empty"),
        EncodeError::UnknownMethod => String::from_str("unknown method"),
        EncodeError::UnknownOperation => String::from_str("unknown operation"),
        EncodeError::UnsupportedOperation { method, operation } => {
            let mut text = String::from_str("unsupported operation ");
            text.append(
                match operation {
                    Operation::Read => "Read",
                    Operation::Write => "Write",
                },
            );
            text.append(" for method ");
            text.append(
                match method {
                    Method::Echo => "Echo",
                    Method::I2c => "I2c",
                    Method::Spi => "Spi",
                    Method::Uart => "Uart",
                    Method::Pwm => "Pwm",
                },
            );
            text
        },
        EncodeError::MissingOperation => String::from_str("missing operation keyword"),
        EncodeError::MissingArgument { index } => {
            let mut text = String::from_str("missing argument at position ");
            push_decimal(&mut text, index + 1);
            text
        },
        EncodeError::UnexpectedArgument { index } => {
            let mut text = String::from_str("unexpected argument starting at position ");
            push_decimal(&mut text, index + 1);
            text
        },
        EncodeError::InvalidArgument { index } => {
            let mut text = String::from_str("invalid argument at position ");
            push_decimal(&mut text, index + 1);
            text
        },
        EncodeError::OutputTooSmall => String::from_str("output buffer is too small"),
    }
}

} // verus!
