//! The connection state machine of the firmware.
//!
//! The machine owns the four buffers of a connection and sequences the
//! handshake, the reassembly of frames, the decoding and execution of
//! commands, and the responses and fault reports. It performs no I/O: its
//! driver hands it events (received bytes, the confirmation of a
//! transmission, the outcome of a bus transaction, a handshake timeout, a
//! receive overflow), each with the present instant in microseconds, and is
//! told the [`Action`] to perform next.
//!
//! | Stage | The machine | Then |
//! |---|---|---|
//! | `Init` | arms the handshake deadline | `WaitForHandshake` |
//! | `WaitForHandshake` | collects a line; answers the phrase | `WaitForMessage`, once confirmed |
//! | `WaitForMessage` | tries to take a frame from the buffer | `ParseCommand`, or `Error` |
//! | `ParseCommand` | decodes the payload into an owned command | `ExecuteAction`, or `Error` |
//! | `ExecuteAction` | answers an echo, asks for a bus transaction | `SendResponse`, or `Error` |
//! | `SendResponse` | asks for the framed response to go out | `WaitForMessage`, once confirmed |
//! | `Error(fault)` | asks for the framed report of the fault to go out | forward, once confirmed |
//!
//! A confirmed fault report leads to `WaitForMessage` if the handshake
//! stands, else to `WaitForHandshake` under a new deadline.
//!
//! [`MachineView`] is the machine as a mathematical value and defines every
//! transition; the methods of [`StateMachine`] are proved to compute them.

use vstd::prelude::*;
use vstd::string::StringSliceAdditionalSpecFns;

use crate::buffers::{
    drop_prefix, frame_clear, frame_contents, frame_new, frame_push, frame_slice,
    handshake_clear, handshake_contents, handshake_new, handshake_push, handshake_slice,
    payload_clear, payload_contents, payload_extend, payload_new, payload_slice, FrameBuffer,
    HandshakeBuffer, PayloadBuffer,
};
use crate::bytes::{ends_with, has_suffix, slices_equal};
use crate::handlers::i2c::{
    after_bus_error, bus_request_of, complete_read, report_bus_error, BusRequest, BusRequestView,
};
use crate::handlers::{dispatch, execute_command};
use crate::protocol::{
    decode_command, decode_command_spec, handshake_command, handshake_command_bytes,
    handshake_delimiter, handshake_delimiter_bytes, handshake_response,
    handshake_response_bytes, Command, CommandView, ProtocolError, HANDSHAKE_TIMEOUT_MICROS,
};
use crate::status_led::{
    nonzero_duration, StatusPattern, StatusTracker, MAX_INSTANT_MICROS,
    STATUS_LED_POLL_INTERVAL_MICROS,
};
use crate::transport::{decode_frame, take_from_bytes, Decoded, FrameError, PostcardError};
use crate::usb_transport::{outgoing, send_framed_payload};

verus! {

/// The stages a connection cycles through.
#[derive(Debug, Clone, Copy, PartialEq, Eq, Structural)]
pub enum SystemState {
    Init,
    WaitForHandshake,
    WaitForMessage,
    ParseCommand,
    ExecuteAction,
    SendResponse,
    Error(Error),
}

/// The faults that are reported to the host.
#[derive(Debug, Clone, Copy, PartialEq, Eq, Structural)]
pub enum Error {
    InvalidChecksum,
    UnknownCommand,
    Timeout,
    ExecutionFailed,
    BufferProcessFailed,
}

impl Error {
    /// The name under which the fault is reported.
    pub open spec fn name(self) -> Seq<u8> {
        match self {
            Error::InvalidChecksum => "InvalidChecksum".spec_bytes(),
            Error::UnknownCommand => "UnknownCommand".spec_bytes(),
            Error::Timeout => "Timeout".spec_bytes(),
            Error::ExecutionFailed => "ExecutionFailed".spec_bytes(),
            Error::BufferProcessFailed => "BufferProcessFailed".spec_bytes(),
        }
    }

    /// The name of the fault as text.
    pub fn as_str(self) -> (text: &'static str)
        ensures
            text.spec_bytes() == self.name(),
    {
        match self {
            Error::InvalidChecksum => "InvalidChecksum",
            Error::UnknownCommand => "UnknownCommand",
            Error::Timeout => "Timeout",
            Error::ExecutionFailed => "ExecutionFailed",
            Error::BufferProcessFailed => "BufferProcessFailed",
        }
    }

    /// The name of the fault as bytes.
    pub fn as_bytes(self) -> (bytes: &'static [u8])
        ensures
            bytes@ == self.name(),
    {
        self.as_str().as_bytes()
    }

    /// A fault's name is at most 19 bytes long.
    pub proof fn lemma_name_is_short(self)
        ensures
            0 < self.name().len() <= 19,
    {
        reveal_strlit("InvalidChecksum");
        reveal_strlit("UnknownCommand");
        reveal_strlit("Timeout");
        reveal_strlit("ExecutionFailed");
        reveal_strlit("BufferProcessFailed");
        vstd::string::is_ascii_spec_bytes("InvalidChecksum");
        vstd::string::is_ascii_spec_bytes("UnknownCommand");
        vstd::string::is_ascii_spec_bytes("Timeout");
        vstd::string::is_ascii_spec_bytes("ExecutionFailed");
        vstd::string::is_ascii_spec_bytes("BufferProcessFailed");
    }
}

/// A command that owns its payload, so that the bytes it was decoded from
/// can be reused while it waits to be executed.
pub enum CommandOwned {
    EchoWrite(PayloadBuffer),
    I2cRead { address: u8, register: u8, length: u8 },
    I2cWrite { address: u8, register: u8, payload: PayloadBuffer },
}

impl View for CommandOwned {
    type V = CommandView;

    open spec fn view(&self) -> CommandView {
        match self {
            CommandOwned::EchoWrite(payload) => CommandView::EchoWrite {
                payload: payload_contents(payload),
            },
            CommandOwned::I2cRead { address, register, length } => CommandView::I2cRead {
                address: *address,
                register: *register,
                length: *length,
            },
            CommandOwned::I2cWrite { address, register, payload } => CommandView::I2cWrite {
                address: *address,
                register: *register,
                payload: payload_contents(payload),
            },
        }
    }
}

/// The payload that a command carries; empty for a command without one.
pub open spec fn payload_of(command: CommandView) -> Seq<u8> {
    match command {
        CommandView::EchoWrite { payload } => payload,
        CommandView::I2cRead { .. } => Seq::<u8>::empty(),
        CommandView::I2cWrite { payload, .. } => payload,
    }
}

impl CommandOwned {
    /// Copies a borrowed command into one that owns its payload.
    ///
    /// The copy is the same command. It fails with `BufferProcessFailed`
    /// exactly when the payload is longer than 256 bytes.
    pub fn from_command(command: Command<'_>) -> (outcome: Result<Self, Error>)
        ensures
            outcome is Ok <==> payload_of(command@).len() <= 256,
            outcome matches Ok(owned) ==> owned@ == command@,
            outcome is Err ==> outcome->Err_0 == Error::BufferProcessFailed,
    {
        match command {
            Command::EchoWrite { payload } => {
                let mut buffer = payload_new();
                if payload_extend(&mut buffer, payload).is_err() {
                    return Err(Error::BufferProcessFailed);
                }
                Ok(CommandOwned::EchoWrite(buffer))
            },
            Command::I2cRead { address, register, length } => Ok(
                CommandOwned::I2cRead { address, register, length },
            ),
            Command::I2cWrite { address, register, payload } => {
                let mut buffer = payload_new();
                if payload_extend(&mut buffer, payload).is_err() {
                    return Err(Error::BufferProcessFailed);
                }
                Ok(CommandOwned::I2cWrite { address, register, payload: buffer })
            },
        }
    }
}

/// What the driver of the machine has to do next.
#[derive(Debug, Clone, PartialEq, Eq)]
pub enum Action {
    /// Nothing: the machine waits for more bytes.
    AwaitInput,
    /// Write these bytes to the host, in packets, then report with
    /// [`StateMachine::transmit_complete`].
    Transmit(Vec<u8>),
    /// Perform this bus transaction, then report with
    /// [`StateMachine::complete_execution`].
    Execute(BusRequest),
}

/// An action as a mathematical value.
pub enum ActionView {
    AwaitInput,
    Transmit(Seq<u8>),
    Execute(BusRequestView),
}

impl View for Action {
    type V = ActionView;

    open spec fn view(&self) -> ActionView {
        match self {
            Action::AwaitInput => ActionView::AwaitInput,
            Action::Transmit(bytes) => ActionView::Transmit(bytes@),
            Action::Execute(request) => ActionView::Execute(request@),
        }
    }
}

/// How a bus transaction ended.
#[derive(Debug, Clone, PartialEq, Eq)]
pub enum BusOutcome {
    /// The bytes that were read.
    Read(Vec<u8>),
    /// The write went through.
    Written,
    /// The bus reported an error, described by these bytes.
    Failed(Vec<u8>),
}

/// The outcome of a bus transaction as a mathematical value.
pub enum BusOutcomeView {
    Read(Seq<u8>),
    Written,
    Failed(Seq<u8>),
}

impl View for BusOutcome {
    type V = BusOutcomeView;

    open spec fn view(&self) -> BusOutcomeView {
        match self {
            BusOutcome::Read(bytes) => BusOutcomeView::Read(bytes@),
            BusOutcome::Written => BusOutcomeView::Written,
            BusOutcome::Failed(detail) => BusOutcomeView::Failed(detail@),
        }
    }
}

/// The text that starts every error report.
pub open spec fn error_prefix() -> Seq<u8> {
    "ERR: ".spec_bytes()
}

/// The text between the parts of an error report.
pub open spec fn error_separator() -> Seq<u8> {
    ": ".spec_bytes()
}

/// The payload that reports fault `kind` to the host. `partial` is what the
/// response buffer held when the fault struck: it follows the name of the
/// fault, if there is any and as far as it fits into 256 bytes.
pub open spec fn error_message(kind: Error, partial: Seq<u8>) -> Seq<u8> {
    let head = error_prefix() + kind.name();
    if partial.len() == 0 {
        head
    } else if head.len() + 2 + partial.len() <= 256 {
        head + error_separator() + partial
    } else {
        head + error_separator()
    }
}

/// The fault under which a command that does not decode is reported.
pub open spec fn fault_of(error: ProtocolError) -> Error {
    match error {
        ProtocolError::Empty => Error::InvalidChecksum,
        ProtocolError::MalformedPayload { .. } => Error::InvalidChecksum,
        ProtocolError::UnknownMethod(_) => Error::UnknownCommand,
        ProtocolError::UnknownOperation(_) => Error::UnknownCommand,
        ProtocolError::UnsupportedOperation { .. } => Error::UnknownCommand,
    }
}

/// The state machine as a mathematical value: its stage, what its four
/// buffers hold, and its bookkeeping.
#[verifier::ext_equal]
pub struct MachineView {
    pub state: SystemState,
    /// The handshake scratch buffer.
    pub handshake: Seq<u8>,
    /// The frame reassembly buffer.
    pub frame: Seq<u8>,
    /// The payload of the frame that was taken last.
    pub command: Seq<u8>,
    /// The response that is being built or sent.
    pub response: Seq<u8>,
    /// The command that waits to be executed.
    pub pending: Option<CommandView>,
    /// The instant by which the handshake has to arrive.
    pub deadline: Option<u64>,
    pub handshake_complete: bool,
    /// The phrase has arrived and the answer has been handed out, but its
    /// transmission has not been confirmed yet.
    pub reply_pending: bool,
    pub status: StatusTracker,
}

impl MachineView {
    /// A machine before its first connection.
    pub open spec fn initial() -> MachineView {
        MachineView {
            state: SystemState::Init,
            handshake: Seq::empty(),
            frame: Seq::empty(),
            command: Seq::empty(),
            response: Seq::empty(),
            pending: None,
            deadline: None,
            handshake_complete: false,
            reply_pending: false,
            status: StatusTracker { last: None, latched: None, signal: None },
        }
    }

    /// The machine in stage `state`, with the indicator brought up to date.
    pub open spec fn with_state(self, state: SystemState, now: u64) -> MachineView {
        MachineView { state, status: self.status.refreshed(state, now), ..self }
    }

    /// The machine after a fault: the command in progress is dropped.
    pub open spec fn failed(self, error: Error, now: u64) -> MachineView {
        MachineView { pending: None, command: Seq::empty(), ..self }.with_state(
            SystemState::Error(error),
            now,
        )
    }

    /// The machine with a handshake deadline counted from `now`.
    pub open spec fn armed(self, now: u64) -> MachineView {
        MachineView { deadline: Some((now + HANDSHAKE_TIMEOUT_MICROS) as u64), ..self }
    }

    /// The machine at the start of a new connection.
    pub open spec fn reset(self, now: u64) -> MachineView {
        MachineView {
            status: StatusTracker { last: None, latched: None, signal: self.status.signal },
            ..MachineView::initial()
        }.armed(now).with_state(SystemState::Init, now)
    }

    /// Tries to take a frame out of the reassembly buffer. `Ok(Some(()))`
    /// says that a payload is ready in the command buffer, `Ok(None)` that
    /// more bytes are needed.
    pub open spec fn frame_taken(self) -> (MachineView, Result<Option<()>, Error>) {
        match decode_frame(self.frame) {
            Decoded::Frame { payload, consumed } => if payload.len() <= 256 {
                (
                    MachineView {
                        command: payload,
                        frame: self.frame.subrange(consumed as int, self.frame.len() as int),
                        ..self
                    },
                    Ok(Some(())),
                )
            } else {
                (
                    MachineView { command: Seq::empty(), frame: Seq::empty(), ..self },
                    Err(Error::InvalidChecksum),
                )
            },
            Decoded::Incomplete => (self, Ok(None)),
            Decoded::Malformed => (
                MachineView { frame: Seq::empty(), ..self },
                Err(Error::InvalidChecksum),
            ),
        }
    }

    /// Decodes the payload in the command buffer into a pending command.
    pub open spec fn command_decoded(self) -> (MachineView, Result<(), Error>) {
        match decode_command_spec(self.command) {
            Ok(command) => if payload_of(command).len() <= 256 {
                (MachineView { pending: Some(command), command: Seq::empty(), ..self }, Ok(()))
            } else {
                (self, Err(Error::BufferProcessFailed))
            },
            Err(error) => (self, Err(fault_of(error))),
        }
    }

    /// Runs the pending command as far as it goes without the bus.
    pub open spec fn command_performed(self) -> (
        MachineView,
        Result<Option<BusRequestView>, Error>,
    ) {
        match self.pending {
            Some(command) => (
                MachineView {
                    pending: None,
                    response: dispatch(command, Seq::empty()).0,
                    ..self
                },
                dispatch(command, Seq::empty()).1,
            ),
            None => (self, Ok(None)),
        }
    }

    /// One transition. The second component is the action at which the
    /// machine stops, if it stops here.
    pub open spec fn stepped(self, now: u64) -> (MachineView, Option<ActionView>) {
        let current = self.with_state(self.state, now);
        match current.state {
            SystemState::Init => (
                if current.deadline is None {
                    current.armed(now)
                } else {
                    current
                }.with_state(SystemState::WaitForHandshake, now),
                None,
            ),
            SystemState::WaitForHandshake => (current, Some(ActionView::AwaitInput)),
            SystemState::WaitForMessage => match current.frame_taken().1 {
                Ok(Some(_)) => (
                    current.frame_taken().0.with_state(SystemState::ParseCommand, now),
                    None,
                ),
                Ok(None) => (current.frame_taken().0, Some(ActionView::AwaitInput)),
                Err(error) => (current.frame_taken().0.failed(error, now), None),
            },
            SystemState::ParseCommand => match current.command_decoded().1 {
                Ok(_) => (
                    current.command_decoded().0.with_state(SystemState::ExecuteAction, now),
                    None,
                ),
                Err(error) => (current.command_decoded().0.failed(error, now), None),
            },
            SystemState::ExecuteAction => match current.command_performed().1 {
                Ok(None) => (
                    current.command_performed().0.with_state(SystemState::SendResponse, now),
                    None,
                ),
                Ok(Some(request)) => (
                    current.command_performed().0,
                    Some(ActionView::Execute(request)),
                ),
                Err(error) => (current.command_performed().0.failed(error, now), None),
            },
            SystemState::SendResponse => (
                current,
                Some(ActionView::Transmit(outgoing(current.response))),
            ),
            SystemState::Error(error) => (
                MachineView { response: error_message(error, current.response), ..current },
                Some(ActionView::Transmit(outgoing(error_message(error, current.response)))),
            ),
        }
    }

    /// How many transitions a stage is away, at most, from the next action.
    pub open spec fn rank(state: SystemState) -> nat {
        match state {
            SystemState::WaitForMessage => 4,
            SystemState::ParseCommand => 3,
            SystemState::ExecuteAction => 2,
            SystemState::Init => 2,
            _ => 1,
        }
    }

    /// The machine driven forward until it stops at an action.
    pub open spec fn advanced(self, now: u64) -> (MachineView, ActionView)
        decreases MachineView::rank(self.state),
    {
        if self.stepped(now).1 is Some {
            (self.stepped(now).0, self.stepped(now).1->Some_0)
        } else {
            self.stepped(now).0.advanced(now)
        }
    }

    /// The handshake buffer after `byte`, and whether the phrase is complete.
    /// A byte that finds the buffer full empties it and is dropped.
    pub open spec fn handshake_stepped(self, byte: u8) -> (MachineView, bool) {
        let held = self.handshake.push(byte);
        if self.handshake.len() >= 64 {
            (MachineView { handshake: Seq::empty(), ..self }, false)
        } else if !ends_with(held, handshake_delimiter_bytes()) {
            (MachineView { handshake: held, ..self }, false)
        } else {
            (
                MachineView { handshake: Seq::empty(), ..self },
                held.subrange(0, held.len() - handshake_delimiter_bytes().len())
                    == handshake_command_bytes(),
            )
        }
    }

    /// The machine after one received byte.
    pub open spec fn byte_accepted(self, byte: u8, now: u64) -> (MachineView, ActionView) {
        let calm = MachineView { reply_pending: false, ..self };
        match calm.state {
            SystemState::WaitForHandshake => if calm.handshake_stepped(byte).1 {
                (
                    MachineView { reply_pending: true, ..calm.handshake_stepped(byte).0 },
                    ActionView::Transmit(handshake_response_bytes()),
                )
            } else {
                calm.handshake_stepped(byte).0.advanced(now)
            },
            SystemState::WaitForMessage => if calm.frame.len() < 512 {
                MachineView { frame: calm.frame.push(byte), ..calm }.advanced(now)
            } else {
                MachineView { frame: Seq::empty(), ..calm }.failed(
                    Error::InvalidChecksum,
                    now,
                ).advanced(now)
            },
            _ => calm.advanced(now),
        }
    }

    /// The machine after as many of the bytes of `data` as it takes before
    /// it asks for something: the machine, the number of bytes taken, and
    /// what it asks for. `asked` is what it asked for last.
    pub open spec fn fed(self, asked: ActionView, data: Seq<u8>, now: u64) -> (
        MachineView,
        nat,
        ActionView,
    )
        decreases data.len(),
    {
        if data.len() == 0 || !(asked is AwaitInput) {
            (self, 0, asked)
        } else {
            let next = self.byte_accepted(data[0], now);
            let rest = next.0.fed(next.1, data.skip(1), now);
            (rest.0, rest.1 + 1, rest.2)
        }
    }

    /// The machine after a poll and then as many of the bytes of `data` as
    /// it takes before it asks for something.
    pub open spec fn consumed(self, data: Seq<u8>, now: u64) -> (MachineView, nat, ActionView) {
        let polled = MachineView { reply_pending: false, ..self }.advanced(now);
        polled.0.fed(polled.1, data, now)
    }

    /// The machine after the driver has confirmed a transmission.
    pub open spec fn transmitted(self, now: u64) -> (MachineView, ActionView) {
        if self.reply_pending {
            MachineView {
                frame: Seq::empty(),
                handshake_complete: true,
                deadline: None,
                reply_pending: false,
                ..self
            }.with_state(SystemState::WaitForMessage, now).advanced(now)
        } else {
            match self.state {
                SystemState::SendResponse => MachineView {
                    response: Seq::empty(),
                    ..self
                }.with_state(SystemState::WaitForMessage, now).advanced(now),
                SystemState::Error(_) => if self.handshake_complete {
                    MachineView { response: Seq::empty(), ..self }.with_state(
                        SystemState::WaitForMessage,
                        now,
                    ).advanced(now)
                } else {
                    MachineView { response: Seq::empty(), ..self }.armed(now).with_state(
                        SystemState::WaitForHandshake,
                        now,
                    ).advanced(now)
                },
                _ => self.advanced(now),
            }
        }
    }

    /// The machine after the driver has reported how a bus transaction
    /// ended.
    pub open spec fn executed(self, outcome: BusOutcomeView, now: u64) -> (
        MachineView,
        ActionView,
    ) {
        let calm = MachineView { reply_pending: false, ..self };
        if calm.state != SystemState::ExecuteAction {
            calm.advanced(now)
        } else {
            match outcome {
                BusOutcomeView::Read(data) => if calm.response.len() + data.len() <= 256 {
                    MachineView { response: calm.response + data, ..calm }.with_state(
                        SystemState::SendResponse,
                        now,
                    ).advanced(now)
                } else {
                    calm.failed(Error::BufferProcessFailed, now).advanced(now)
                },
                BusOutcomeView::Written => calm.with_state(SystemState::SendResponse, now).advanced(
                    now,
                ),
                BusOutcomeView::Failed(detail) => MachineView {
                    response: after_bus_error(detail, calm.response),
                    ..calm
                }.failed(Error::ExecutionFailed, now).advanced(now),
            }
        }
    }

    /// The machine after the handshake deadline has passed.
    pub open spec fn timed_out(self, now: u64) -> (MachineView, ActionView) {
        MachineView {
            handshake: Seq::empty(),
            frame: Seq::empty(),
            handshake_complete: false,
            reply_pending: false,
            ..self
        }.armed(now).failed(Error::Timeout, now).advanced(now)
    }

    /// The machine after the transport has reported a receive overflow.
    pub open spec fn overflowed(self, now: u64) -> (MachineView, ActionView) {
        MachineView { frame: Seq::empty(), reply_pending: false, ..self }.failed(
            Error::InvalidChecksum,
            now,
        ).advanced(now)
    }

    /// How long the driver lets a read block at `now`, in microseconds: the
    /// poll interval of the indicator, or the time to the handshake deadline
    /// if that is shorter, and at least one microsecond.
    pub open spec fn read_wait(self, now: u64) -> u64 {
        if self.timeout_remaining(now) is Some && self.timeout_remaining(now)->Some_0
            < STATUS_LED_POLL_INTERVAL_MICROS {
            if self.timeout_remaining(now)->Some_0 == 0 {
                1
            } else {
                self.timeout_remaining(now)->Some_0
            }
        } else {
            STATUS_LED_POLL_INTERVAL_MICROS
        }
    }

    /// How long the driver may wait for the handshake at `now`: nothing once
    /// the handshake stands or outside the first two stages, else the time
    /// to the deadline, which is zero once the deadline has passed.
    pub open spec fn timeout_remaining(self, now: u64) -> Option<u64> {
        if self.handshake_complete {
            None
        } else if self.state != SystemState::WaitForHandshake && self.state != SystemState::Init {
            None
        } else if self.deadline is None {
            None
        } else if self.deadline->Some_0 <= now {
            Some(0)
        } else {
            Some((self.deadline->Some_0 - now) as u64)
        }
    }
}

/// Tracks buffers, deadline and stage of one connection.
pub struct StateMachine {
    state: SystemState,
    handshake_buf: HandshakeBuffer,
    frame_buf: FrameBuffer,
    command_buf: PayloadBuffer,
    response_buf: PayloadBuffer,
    pending_command: Option<CommandOwned>,
    handshake_deadline: Option<u64>,
    handshake_complete: bool,
    reply_pending: bool,
    status: StatusTracker,
}

impl View for StateMachine {
    type V = MachineView;

    closed spec fn view(&self) -> MachineView {
        MachineView {
            state: self.state,
            handshake: handshake_contents(&self.handshake_buf),
            frame: frame_contents(&self.frame_buf),
            command: payload_contents(&self.command_buf),
            response: payload_contents(&self.response_buf),
            pending: match self.pending_command {
                Some(command) => Some(command@),
                None => None,
            },
            deadline: self.handshake_deadline,
            handshake_complete: self.handshake_complete,
            reply_pending: self.reply_pending,
            status: self.status,
        }
    }
}

impl StateMachine {
    /// A machine with empty buffers, in `Init`, without a deadline.
    pub fn new() -> (machine: Self)
        ensures
            machine@ == MachineView::initial(),
    {
        StateMachine {
            state: SystemState::Init,
            handshake_buf: handshake_new(),
            frame_buf: frame_new(),
            command_buf: payload_new(),
            response_buf: payload_new(),
            pending_command: None,
            handshake_deadline: None,
            handshake_complete: false,
            reply_pending: false,
            status: StatusTracker::new(),
        }
    }

    /// Returns to `Init` at the start of a connection: every buffer is
    /// emptied and a handshake deadline is counted from `now`.
    pub fn reset(&mut self, now: u64)
        requires
            now <= MAX_INSTANT_MICROS,
        ensures
            final(self)@ == old(self)@.reset(now),
    {
        handshake_clear(&mut self.handshake_buf);
        frame_clear(&mut self.frame_buf);
        payload_clear(&mut self.command_buf);
        payload_clear(&mut self.response_buf);
        self.pending_command = None;
        self.handshake_complete = false;
        self.reply_pending = false;
        self.status.last = None;
        self.status.latched = None;
        self.handshake_deadline = None;
        self.schedule_handshake_deadline(now);
        self.set_state(SystemState::Init, now);
    }

    fn set_state(&mut self, state: SystemState, now: u64)
        requires
            now <= MAX_INSTANT_MICROS,
        ensures
            final(self)@ == old(self)@.with_state(state, now),
    {
        self.state = state;
        self.status.refresh(state, now);
    }

    /// Brings the indicator up to date at `now`; nothing else changes.
    pub fn tick(&mut self, now: u64)
        requires
            now <= MAX_INSTANT_MICROS,
        ensures
            final(self)@ == old(self)@.with_state(old(self)@.state, now),
    {
        self.status.refresh(self.state, now);
    }

    /// Takes the pattern that waits for the indicator task, if any.
    pub fn take_status_signal(&mut self) -> (pattern: Option<StatusPattern>)
        ensures
            pattern == old(self)@.status.signal,
            final(self)@ == (MachineView {
                status: StatusTracker { signal: None, ..old(self)@.status },
                ..old(self)@
            }),
    {
        self.status.take_signal()
    }

    /// The stage the machine is in.
    pub fn state(&self) -> (state: SystemState)
        ensures
            state == self@.state,
    {
        self.state
    }

    /// The number of bytes in the frame reassembly buffer.
    pub fn buffered(&self) -> (count: usize)
        ensures
            count == self@.frame.len(),
    {
        frame_slice(&self.frame_buf).len()
    }

    /// Whether the handshake of this connection stands.
    pub fn handshake_complete(&self) -> (complete: bool)
        ensures
            complete == self@.handshake_complete,
    {
        self.handshake_complete
    }

    fn enter_error(&mut self, err: Error, now: u64)
        requires
            now <= MAX_INSTANT_MICROS,
        ensures
            final(self)@ == old(self)@.failed(err, now),
    {
        self.pending_command = None;
        payload_clear(&mut self.command_buf);
        self.set_state(SystemState::Error(err), now);
    }

    /// The fault under which a command that does not decode is reported.
    pub fn map_protocol_error(err: ProtocolError) -> (fault: Error)
        ensures
            fault == fault_of(err),
    {
        match err {
            ProtocolError::Empty => Error::InvalidChecksum,
            ProtocolError::MalformedPayload { .. } => Error::InvalidChecksum,
            ProtocolError::UnknownMethod(_) => Error::UnknownCommand,
            ProtocolError::UnknownOperation(_) => Error::UnknownCommand,
            ProtocolError::UnsupportedOperation { .. } => Error::UnknownCommand,
        }
    }

    fn schedule_handshake_deadline(&mut self, now: u64)
        requires
            now <= MAX_INSTANT_MICROS,
        ensures
            final(self)@ == old(self)@.armed(now),
    {
        self.handshake_deadline = Some(now + HANDSHAKE_TIMEOUT_MICROS);
    }

    fn take_ready_frame(&mut self) -> (outcome: Result<Option<()>, Error>)
        ensures
            final(self)@ == old(self)@.frame_taken().0,
            outcome == old(self)@.frame_taken().1,
    {
        let held = frame_slice(&self.frame_buf);
        match take_from_bytes(held) {
            Ok((frame, remaining)) => {
                let consumed = held.len() - remaining.len();
                payload_clear(&mut self.command_buf);
                if payload_extend(&mut self.command_buf, frame.payload).is_err() {
                    frame_clear(&mut self.frame_buf);
                    return Err(Error::InvalidChecksum);
                }
                drop_prefix(&mut self.frame_buf, consumed);
                Ok(Some(()))
            },
            Err(FrameError::Deserialize(err)) => {
                if err == PostcardError::DeserializeUnexpectedEnd {
                    Ok(None)
                } else {
                    frame_clear(&mut self.frame_buf);
                    Err(Error::InvalidChecksum)
                }
            },
            Err(FrameError::Serialize(_)) => {
                frame_clear(&mut self.frame_buf);
                Err(Error::InvalidChecksum)
            },
        }
    }

    fn decode_pending_command(&mut self) -> (outcome: Result<(), Error>)
        ensures
            final(self)@ == old(self)@.command_decoded().0,
            outcome == old(self)@.command_decoded().1,
    {
        match decode_command(payload_slice(&self.command_buf)) {
            Ok(command) => {
                let owned = match CommandOwned::from_command(command) {
                    Ok(owned) => owned,
                    Err(error) => {
                        return Err(error);
                    },
                };
                self.pending_command = Some(owned);
                payload_clear(&mut self.command_buf);
                Ok(())
            },
            Err(err) => Err(Self::map_protocol_error(err)),
        }
    }

    fn perform_command(&mut self) -> (outcome: Result<Option<BusRequest>, Error>)
        ensures
            final(self)@ == old(self)@.command_performed().0,
            outcome is Ok <==> old(self)@.command_performed().1 is Ok,
            outcome matches Ok(request) ==> bus_request_of(request) == old(
                self,
            )@.command_performed().1->Ok_0,
            outcome matches Err(error) ==> old(self)@.command_performed().1->Err_0 == error,
    {
        if let Some(command) = self.pending_command.take() {
            payload_clear(&mut self.response_buf);
            execute_command(command, &mut self.response_buf)
        } else {
            Ok(None)
        }
    }

    fn stage_error(&mut self, err: Error)
        ensures
            final(self)@ == (MachineView {
                response: error_message(err, old(self)@.response),
                ..old(self)@
            }),
    {
        proof {
            err.lemma_name_is_short();
            lemma_report_parts();
        }
        let mut errored = payload_new();
        let _ = payload_extend(&mut errored, payload_slice(&self.response_buf));
        payload_clear(&mut self.response_buf);
        let _ = payload_extend(&mut self.response_buf, "ERR: ".as_bytes());
        let _ = payload_extend(&mut self.response_buf, err.as_bytes());
        if !payload_slice(&errored).is_empty() {
            let _ = payload_extend(&mut self.response_buf, ": ".as_bytes());
            let _ = payload_extend(&mut self.response_buf, payload_slice(&errored));
        }
    }

    fn run(&mut self, now: u64) -> (action: Action)
        requires
            now <= MAX_INSTANT_MICROS,
        ensures
            final(self)@ == old(self)@.advanced(now).0,
            action@ == old(self)@.advanced(now).1,
    {
        loop
            invariant
                now <= MAX_INSTANT_MICROS,
                self@.advanced(now) == old(self)@.advanced(now),
            decreases MachineView::rank(self@.state),
        {
            self.status.refresh(self.state, now);
            match self.state {
                SystemState::Init => {
                    if self.handshake_deadline.is_none() {
                        self.schedule_handshake_deadline(now);
                    }
                    self.set_state(SystemState::WaitForHandshake, now);
                },
                SystemState::WaitForHandshake => {
                    return Action::AwaitInput;
                },
                SystemState::WaitForMessage => match self.take_ready_frame() {
                    Ok(Some(())) => {
                        self.set_state(SystemState::ParseCommand, now);
                    },
                    Ok(None) => {
                        return Action::AwaitInput;
                    },
                    Err(err) => {
                        self.enter_error(err, now);
                    },
                },
                SystemState::ParseCommand => match self.decode_pending_command() {
                    Ok(()) => {
                        self.set_state(SystemState::ExecuteAction, now);
                    },
                    Err(err) => {
                        self.enter_error(err, now);
                    },
                },
                SystemState::ExecuteAction => match self.perform_command() {
                    Ok(None) => {
                        self.set_state(SystemState::SendResponse, now);
                    },
                    Ok(Some(request)) => {
                        return Action::Execute(request);
                    },
                    Err(err) => {
                        self.enter_error(err, now);
                    },
                },
                SystemState::SendResponse => {
                    return Action::Transmit(
                        send_framed_payload(payload_slice(&self.response_buf)),
                    );
                },
                SystemState::Error(err) => {
                    self.stage_error(err);
                    return Action::Transmit(
                        send_framed_payload(payload_slice(&self.response_buf)),
                    );
                },
            }
        }
    }

    /// Drives the machine forward until it has to wait for input or for its
    /// driver: through the handshake arming in `Init`, and from a buffered
    /// frame through decoding and execution to the response or the error
    /// report that has to be transmitted.
    pub fn advance(&mut self, now: u64) -> (action: Action)
        requires
            now <= MAX_INSTANT_MICROS,
        ensures
            final(self)@ == (MachineView { reply_pending: false, ..old(self)@ }).advanced(now).0,
            action@ == (MachineView { reply_pending: false, ..old(self)@ }).advanced(now).1,
    {
        self.reply_pending = false;
        self.run(now)
    }

    fn step_handshake(&mut self, byte: u8) -> (matched: bool)
        ensures
            final(self)@ == old(self)@.handshake_stepped(byte).0,
            matched == old(self)@.handshake_stepped(byte).1,
    {
        if handshake_push(&mut self.handshake_buf, byte).is_err() {
            handshake_clear(&mut self.handshake_buf);
            return false;
        }
        let delimiter = handshake_delimiter();
        let buffer = handshake_slice(&self.handshake_buf);
        if !has_suffix(buffer, delimiter) {
            return false;
        }
        let command_len = buffer.len() - delimiter.len();
        let command = vstd::slice::slice_subrange(buffer, 0, command_len);
        let matched = slices_equal(command, handshake_command());
        handshake_clear(&mut self.handshake_buf);
        matched
    }

    /// Feeds one received byte to the machine and drives it forward.
    ///
    /// Before the handshake the byte joins the phrase being collected; when
    /// it completes the exact phrase, the action is to transmit the fixed
    /// answer. After the handshake the byte joins the frame being
    /// reassembled; a byte that finds that buffer full empties it and
    /// raises `InvalidChecksum`. In every other stage the byte is dropped.
    pub fn accept_byte(&mut self, byte: u8, now: u64) -> (action: Action)
        requires
            now <= MAX_INSTANT_MICROS,
        ensures
            final(self)@ == old(self)@.byte_accepted(byte, now).0,
            action@ == old(self)@.byte_accepted(byte, now).1,
    {
        self.reply_pending = false;
        match self.state {
            SystemState::WaitForHandshake => {
                if self.step_handshake(byte) {
                    self.reply_pending = true;
                    return Action::Transmit(vstd::slice::slice_to_vec(handshake_response()));
                }
            },
            SystemState::WaitForMessage => {
                if frame_push(&mut self.frame_buf, byte).is_err() {
                    frame_clear(&mut self.frame_buf);
                    self.enter_error(Error::InvalidChecksum, now);
                }
            },
            _ => {},
        }
        self.run(now)
    }

    /// Feeds received bytes to the machine until it asks for something.
    ///
    /// The machine is polled first. While it waits for input, the bytes of
    /// `data` are fed to it one by one. Returned are the number of bytes
    /// that were taken and what the machine asks for; the driver does that,
    /// reports back, and comes again with the bytes that were not taken.
    /// `AwaitInput` says that all of `data` was taken.
    pub fn consume(&mut self, data: &[u8], now: u64) -> (progress: (usize, Action))
        requires
            now <= MAX_INSTANT_MICROS,
        ensures
            final(self)@ == old(self)@.consumed(data@, now).0,
            progress.0 == old(self)@.consumed(data@, now).1,
            progress.1@ == old(self)@.consumed(data@, now).2,
            progress.0 <= data@.len(),
            progress.1 is AwaitInput ==> progress.0 == data@.len(),
    {
        let mut action = self.advance(now);
        let mut taken: usize = 0;
        assert(data@.skip(0) == data@);
        while taken < data.len() && matches!(action, Action::AwaitInput)
            invariant
                now <= MAX_INSTANT_MICROS,
                taken <= data@.len(),
                old(self)@.consumed(data@, now).0 == self@.fed(
                    action@,
                    data@.skip(taken as int),
                    now,
                ).0,
                old(self)@.consumed(data@, now).1 == taken + self@.fed(
                    action@,
                    data@.skip(taken as int),
                    now,
                ).1,
                old(self)@.consumed(data@, now).2 == self@.fed(
                    action@,
                    data@.skip(taken as int),
                    now,
                ).2,
            decreases data@.len() - taken,
        {
            assert(data@.skip(taken as int).skip(1) == data@.skip(taken + 1));
            action = self.accept_byte(data[taken], now);
            taken = taken + 1;
        }
        (taken, action)
    }

    /// Tells the machine that the bytes of its last `Transmit` are out.
    ///
    /// After the handshake answer the session opens; after a response or an
    /// error report the response buffer is emptied and the machine waits
    /// for the next message, or, if the handshake does not stand, for the
    /// handshake under a deadline counted from `now`.
    pub fn transmit_complete(&mut self, now: u64) -> (action: Action)
        requires
            now <= MAX_INSTANT_MICROS,
        ensures
            final(self)@ == old(self)@.transmitted(now).0,
            action@ == old(self)@.transmitted(now).1,
    {
        if self.reply_pending {
            frame_clear(&mut self.frame_buf);
            self.handshake_complete = true;
            self.handshake_deadline = None;
            self.reply_pending = false;
            self.set_state(SystemState::WaitForMessage, now);
        } else {
            match self.state {
                SystemState::SendResponse => {
                    payload_clear(&mut self.response_buf);
                    self.set_state(SystemState::WaitForMessage, now);
                },
                SystemState::Error(_) => {
                    payload_clear(&mut self.response_buf);
                    if self.handshake_complete {
                        self.set_state(SystemState::WaitForMessage, now);
                    } else {
                        self.schedule_handshake_deadline(now);
                        self.set_state(SystemState::WaitForHandshake, now);
                    }
                },
                _ => {},
            }
        }
        self.run(now)
    }

    /// Tells the machine how the bus transaction of its last `Execute`
    /// ended.
    pub fn complete_execution(&mut self, outcome: BusOutcome, now: u64) -> (action: Action)
        requires
            now <= MAX_INSTANT_MICROS,
        ensures
            final(self)@ == old(self)@.executed(outcome@, now).0,
            action@ == old(self)@.executed(outcome@, now).1,
    {
        self.reply_pending = false;
        if self.state == SystemState::ExecuteAction {
            match outcome {
                BusOutcome::Read(data) => {
                    match complete_read(data.as_slice(), &mut self.response_buf) {
                        Ok(()) => {
                            self.set_state(SystemState::SendResponse, now);
                        },
                        Err(err) => {
                            self.enter_error(err, now);
                        },
                    }
                },
                BusOutcome::Written => {
                    self.set_state(SystemState::SendResponse, now);
                },
                BusOutcome::Failed(detail) => {
                    let _ = report_bus_error(detail.as_slice(), &mut self.response_buf);
                    self.enter_error(Error::ExecutionFailed, now);
                },
            }
        }
        self.run(now)
    }

    /// How long the driver may still wait for the handshake, in
    /// microseconds.
    pub fn handshake_timeout_remaining(&self, now: u64) -> (remaining: Option<u64>)
        ensures
            remaining == self@.timeout_remaining(now),
    {
        if self.handshake_complete {
            return None;
        }
        if self.state != SystemState::WaitForHandshake && self.state != SystemState::Init {
            return None;
        }
        let deadline = match self.handshake_deadline {
            Some(deadline) => deadline,
            None => {
                return None;
            },
        };
        if deadline <= now {
            Some(0)
        } else {
            Some(deadline - now)
        }
    }

    /// How long the driver lets its next read block before it looks at the
    /// deadline and the indicator again, in microseconds.
    pub fn next_wait(&self, now: u64) -> (wait: u64)
        ensures
            wait == self@.read_wait(now),
            0 < wait <= STATUS_LED_POLL_INTERVAL_MICROS,
    {
        let mut wait = STATUS_LED_POLL_INTERVAL_MICROS;
        if let Some(timeout) = self.handshake_timeout_remaining(now) {
            if timeout < wait {
                wait = timeout;
            }
        }
        nonzero_duration(wait)
    }

    /// Whether the handshake deadline has passed at `now`, so that the
    /// driver has to call [`StateMachine::handle_handshake_timeout`].
    pub fn handshake_overdue(&self, now: u64) -> (overdue: bool)
        ensures
            overdue == (self@.timeout_remaining(now) == Some(0u64)),
    {
        match self.handshake_timeout_remaining(now) {
            Some(timeout) => timeout == 0,
            None => false,
        }
    }

    /// Recovers from a handshake that did not arrive in time: the handshake
    /// and frame buffers are emptied, the handshake no longer stands, and
    /// the fault `Timeout` is raised.
    pub fn handle_handshake_timeout(&mut self, now: u64) -> (action: Action)
        requires
            now <= MAX_INSTANT_MICROS,
        ensures
            final(self)@ == old(self)@.timed_out(now).0,
            action@ == old(self)@.timed_out(now).1,
    {
        self.reply_pending = false;
        handshake_clear(&mut self.handshake_buf);
        frame_clear(&mut self.frame_buf);
        self.handshake_complete = false;
        self.schedule_handshake_deadline(now);
        self.enter_error(Error::Timeout, now);
        self.run(now)
    }

    /// Recovers from a receive overflow of the transport: the frame buffer
    /// is emptied and the fault `InvalidChecksum` is raised.
    pub fn handle_buffer_overflow(&mut self, now: u64) -> (action: Action)
        requires
            now <= MAX_INSTANT_MICROS,
        ensures
            final(self)@ == old(self)@.overflowed(now).0,
            action@ == old(self)@.overflowed(now).1,
    {
        self.reply_pending = false;
        frame_clear(&mut self.frame_buf);
        self.enter_error(Error::InvalidChecksum, now);
        self.run(now)
    }
}

pub proof fn lemma_report_parts()
    ensures
        error_prefix().len() == 5,
        error_separator().len() == 2,
{
    reveal_strlit("ERR: ");
    reveal_strlit(": ");
    vstd::string::is_ascii_spec_bytes("ERR: ");
    vstd::string::is_ascii_spec_bytes(": ");
}

} // verus!
