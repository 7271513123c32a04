//! What holds of the connection state machine in every state.
//!
//! The first part speaks of single events: the handshake, the overflow of
//! the frame buffer, the timeout, the way out of every fault, an echo, the
//! capacities. The second part speaks of whole reads under a driver whose
//! writes succeed ([`crate::session`]): that the cutting of a byte stream
//! into reads does not show, what a handshake line, an overlong run and an
//! echo lead to, and what a machine at rest holds.

use vstd::prelude::*;

use crate::handlers::echo::ECHO_PREFIX;
use crate::handlers::i2c::{after_bus_error, lemma_message_lengths};
use crate::protocol::{
    command_bytes, handshake_command_bytes, handshake_response_bytes, lemma_decode_inverts_layout,
    CommandView, HANDSHAKE_TIMEOUT_MICROS,
};
use crate::session::{
    attended, confirming, lemma_advance_consumes, lemma_confirmation_makes_progress, served,
    settled,
};
use crate::state::{
    error_message, payload_of, ActionView, BusOutcomeView, Error, MachineView, SystemState,
};
use crate::status_led::MAX_INSTANT_MICROS;
use crate::transport::{
    concat, decode_frame, frame_encoding, lemma_frame_is_not_empty,
    lemma_partial_frame_is_incomplete, lemma_round_trip,
};
use crate::usb_transport::lemma_short_payload_is_sent;

verus! {

/// The machine after a run of bytes, each of which left it waiting for the
/// next.
pub open spec fn typed(machine: MachineView, bytes: Seq<u8>, now: u64) -> MachineView
    decreases bytes.len(),
{
    if bytes.len() == 0 {
        machine
    } else {
        typed(machine, bytes.drop_last(), now).byte_accepted(bytes.last(), now).0
    }
}

proof fn lemma_line_is_collected(machine: MachineView, line: Seq<u8>, now: u64)
    requires
        machine.state == SystemState::WaitForHandshake,
        machine.handshake.len() == 0,
        line.len() < 64,
        forall|i: int| 0 <= i < line.len() ==> line[i] != 0x0a,
    ensures
        typed(machine, line, now).state == SystemState::WaitForHandshake,
        typed(machine, line, now).handshake == line,
        typed(machine, line, now).frame == machine.frame,
        typed(machine, line, now).handshake_complete == machine.handshake_complete,
        line.len() > 0 ==> !typed(machine, line, now).reply_pending,
    decreases line.len(),
{
    if line.len() > 0 {
        let head = line.drop_last();
        lemma_line_is_collected(machine, head, now);
        let before = typed(machine, head, now);
        let calm = MachineView { reply_pending: false, ..before };
        let held = calm.handshake.push(line.last());
        assert(held == line);
        assert(held.subrange(held.len() - 1, held.len() as int)[0] == line.last());
    }
}

/// The machine, and what it asks for, after the bytes of `line` and then the
/// handshake delimiter.
pub open spec fn answered(machine: MachineView, line: Seq<u8>, now: u64) -> (
    MachineView,
    ActionView,
) {
    typed(machine, line, now).byte_accepted(0x0a, now)
}

/// The session opens on the exact phrase and on nothing else.
///
/// A machine that waits for the handshake with an empty scratch buffer is
/// sent a line of fewer than 64 bytes and then the delimiter. If the line is
/// the handshake phrase, byte for byte, the machine asks for the fixed
/// answer to be transmitted, without changing its stage yet; once that is
/// confirmed the handshake stands, the frame buffer is empty, and the
/// machine waits for messages. Every other line leaves it waiting for the
/// handshake, with the scratch buffer empty again and nothing to transmit.
pub proof fn lemma_handshake_needs_the_exact_phrase(machine: MachineView, line: Seq<u8>, now: u64)
    requires
        machine.state == SystemState::WaitForHandshake,
        machine.handshake.len() == 0,
        line.len() < 64,
        forall|i: int| 0 <= i < line.len() ==> line[i] != 0x0a,
    ensures
        line == handshake_command_bytes() ==> answered(machine, line, now).1
            == ActionView::Transmit(handshake_response_bytes()),
        line == handshake_command_bytes() ==> answered(machine, line, now).0.state
            == SystemState::WaitForHandshake && answered(machine, line, now).0.handshake_complete
            == machine.handshake_complete,
        line == handshake_command_bytes() ==> answered(machine, line, now).0.transmitted(now).1
            == ActionView::AwaitInput,
        line == handshake_command_bytes() ==> answered(machine, line, now).0.transmitted(
            now,
        ).0.state == SystemState::WaitForMessage,
        line == handshake_command_bytes() ==> answered(machine, line, now).0.transmitted(
            now,
        ).0.handshake_complete && answered(machine, line, now).0.transmitted(now).0.deadline
            is None && answered(machine, line, now).0.transmitted(now).0.frame.len() == 0,
        line != handshake_command_bytes() ==> answered(machine, line, now).1
            == ActionView::AwaitInput,
        line != handshake_command_bytes() ==> answered(machine, line, now).0.state
            == SystemState::WaitForHandshake && answered(machine, line, now).0.handshake.len() == 0,
        line != handshake_command_bytes() ==> !answered(machine, line, now).0.reply_pending
            && answered(machine, line, now).0.handshake_complete == machine.handshake_complete,
{
    lemma_line_is_collected(machine, line, now);
    let before = typed(machine, line, now);
    let calm = MachineView { reply_pending: false, ..before };
    let held = calm.handshake.push(0x0a);
    assert(held.subrange(held.len() - 1, held.len() as int) == seq![0x0au8]);
    assert(held.subrange(0, held.len() - 1) == line);
    if line == handshake_command_bytes() {
        let after = before.byte_accepted(0x0a, now).0;
        let fresh = MachineView {
            frame: Seq::empty(),
            handshake_complete: true,
            deadline: None,
            reply_pending: false,
            ..after
        }.with_state(SystemState::WaitForMessage, now);
        lemma_empty_buffer_waits(fresh, now);
    }
}

proof fn lemma_empty_buffer_waits(machine: MachineView, now: u64)
    requires
        machine.state == SystemState::WaitForMessage,
        machine.frame.len() == 0,
    ensures
        machine.advanced(now).1 == ActionView::AwaitInput,
        machine.advanced(now).0 == machine.with_state(SystemState::WaitForMessage, now),
{
}

/// A byte too many is reported and costs the buffered bytes, nothing else.
///
/// When a byte arrives while the machine waits for a message and the frame
/// buffer is full, the machine ends up in `Error(InvalidChecksum)` with an
/// empty frame buffer and no command in progress, and asks for the report
/// of that fault to be transmitted.
pub proof fn lemma_overflow_is_reported(machine: MachineView, byte: u8, now: u64)
    requires
        machine.state == SystemState::WaitForMessage,
        machine.frame.len() >= 512,
    ensures
        machine.byte_accepted(byte, now).0.state == SystemState::Error(Error::InvalidChecksum),
        machine.byte_accepted(byte, now).0.frame.len() == 0,
        machine.byte_accepted(byte, now).0.pending is None,
        machine.byte_accepted(byte, now).0.response == error_message(
            Error::InvalidChecksum,
            machine.response,
        ),
        machine.response.len() == 0 ==> machine.byte_accepted(byte, now).1 == ActionView::Transmit(
            frame_encoding(error_message(Error::InvalidChecksum, machine.response)),
        ),
{
    Error::InvalidChecksum.lemma_name_is_short();
    crate::state::lemma_report_parts();
    if machine.response.len() == 0 {
        lemma_short_payload_is_sent(error_message(Error::InvalidChecksum, machine.response));
    }
}

/// A handshake that does not arrive is reported as `Timeout`.
///
/// Whatever the machine was doing, after the timeout it is in
/// `Error(Timeout)` with empty handshake and frame buffers, its handshake
/// does not stand, a new deadline is counted from `now`, and it asks for a
/// transmission: that of the frame of `ERR: Timeout`, if its response buffer
/// was empty.
pub proof fn lemma_timeout_is_reported(machine: MachineView, now: u64)
    ensures
        machine.timed_out(now).0.state == SystemState::Error(Error::Timeout),
        machine.timed_out(now).0.handshake.len() == 0,
        machine.timed_out(now).0.frame.len() == 0,
        !machine.timed_out(now).0.handshake_complete,
        !machine.timed_out(now).0.reply_pending,
        machine.timed_out(now).0.deadline == Some((now + HANDSHAKE_TIMEOUT_MICROS) as u64),
        machine.timed_out(now).1 is Transmit,
        machine.response.len() == 0 ==> machine.timed_out(now).1 == ActionView::Transmit(
            frame_encoding(error_message(Error::Timeout, Seq::empty())),
        ),
{
    Error::Timeout.lemma_name_is_short();
    crate::state::lemma_report_parts();
    if machine.response.len() == 0 {
        assert(machine.response == Seq::<u8>::empty());
        lemma_short_payload_is_sent(error_message(Error::Timeout, machine.response));
    }
}

/// No fault is the end of a connection.
///
/// In every `Error` stage the machine asks for a transmission. Once that is
/// confirmed, a machine whose handshake does not stand waits for the
/// handshake again, under a deadline counted from then; one whose handshake
/// stands, and whose frame buffer is empty, waits for the next message. And
/// whenever the machine waits for input after the confirmation, the report
/// is gone from its response buffer.
pub proof fn lemma_fault_resolves_forward(machine: MachineView, fault: Error, now: u64)
    requires
        machine.state == SystemState::Error(fault),
        !machine.reply_pending,
        now <= MAX_INSTANT_MICROS,
    ensures
        machine.advanced(now).1 is Transmit,
        machine.advanced(now).0.state == SystemState::Error(fault),
        !machine.handshake_complete ==> machine.transmitted(now).0.state
            == SystemState::WaitForHandshake && machine.transmitted(now).0.deadline == Some(
            (now + HANDSHAKE_TIMEOUT_MICROS) as u64,
        ) && machine.transmitted(now).1 == ActionView::AwaitInput,
        machine.handshake_complete && machine.frame.len() == 0 ==> machine.transmitted(now).0.state
            == SystemState::WaitForMessage && machine.transmitted(now).1 == ActionView::AwaitInput,
        machine.transmitted(now).1 is AwaitInput ==> machine.transmitted(now).0.response.len()
            == 0,
{
    let cleared = MachineView { response: Seq::empty(), ..machine };
    if machine.handshake_complete {
        let next = cleared.with_state(SystemState::WaitForMessage, now);
        if machine.frame.len() == 0 {
            lemma_empty_buffer_waits(next, now);
        }
        lemma_response_stays_empty_while_waiting(next, now);
    } else {
        let next = cleared.armed(now).with_state(SystemState::WaitForHandshake, now);
        assert(next.advanced(now).1 == ActionView::AwaitInput);
    }
}

proof fn lemma_response_stays_empty_while_waiting(machine: MachineView, now: u64)
    requires
        machine.state == SystemState::WaitForMessage,
        machine.response.len() == 0,
    ensures
        machine.advanced(now).1 is AwaitInput ==> machine.advanced(now).0.response.len() == 0,
{
    reveal_with_fuel(MachineView::advanced, 5);
}

/// An echo is answered with the prefix and the text.
///
/// A machine that waits for a message and finds the frame of an echo
/// command at the head of its frame buffer asks for the frame of the
/// prefixed text to be transmitted, keeps what followed the command's frame
/// in the buffer, and is in `SendResponse`.
pub proof fn lemma_echo_is_answered(machine: MachineView, text: Seq<u8>, rest: Seq<u8>, now: u64)
    requires
        machine.state == SystemState::WaitForMessage,
        text.len() <= 248,
        machine.frame == frame_encoding(command_bytes(CommandView::EchoWrite { payload: text }))
            + rest,
    ensures
        machine.advanced(now).1 == ActionView::Transmit(frame_encoding(ECHO_PREFIX@ + text)),
        machine.advanced(now).0.state == SystemState::SendResponse,
        machine.advanced(now).0.frame == rest,
        machine.advanced(now).0.response == ECHO_PREFIX@ + text,
        machine.advanced(now).0.pending is None,
{
    let command = CommandView::EchoWrite { payload: text };
    let bytes = command_bytes(command);
    lemma_round_trip(bytes, rest);
    lemma_decode_inverts_layout(command);
    lemma_short_payload_is_sent(ECHO_PREFIX@ + text);
    let first = machine.with_state(machine.state, now);
    let taken = first.frame_taken().0;
    assert(taken.command == bytes);
    assert(taken.frame =~= rest);
    let second = taken.with_state(SystemState::ParseCommand, now);
    assert(machine.stepped(now) == (second, None::<ActionView>));
    let parsed = second.with_state(second.state, now).command_decoded().0;
    assert(parsed.pending == Some(command));
    let third = parsed.with_state(SystemState::ExecuteAction, now);
    assert(second.stepped(now) == (third, None::<ActionView>));
    let ran = third.with_state(third.state, now).command_performed().0;
    assert(Seq::<u8>::empty() + ECHO_PREFIX@ + text =~= ECHO_PREFIX@ + text);
    assert(ran.response == ECHO_PREFIX@ + text);
    let fourth = ran.with_state(SystemState::SendResponse, now);
    assert(third.stepped(now) == (fourth, None::<ActionView>));
    assert(fourth.stepped(now).1 == Some(
        ActionView::Transmit(frame_encoding(ECHO_PREFIX@ + text)),
    ));
    assert(fourth.advanced(now) == (fourth.stepped(now).0, fourth.stepped(now).1->Some_0));
    assert(third.advanced(now) == fourth.advanced(now));
    assert(second.advanced(now) == third.advanced(now));
    assert(machine.advanced(now) == second.advanced(now));
}

/// Whether every buffer of the machine holds no more than its capacity.
pub open spec fn within_capacity(machine: MachineView) -> bool {
    &&& machine.handshake.len() <= 64
    &&& machine.frame.len() <= 512
    &&& machine.command.len() <= 256
    &&& machine.response.len() <= 256
    &&& (machine.pending is Some ==> payload_of(machine.pending->Some_0).len() <= 256)
}

proof fn lemma_step_keeps_capacities(machine: MachineView, now: u64)
    requires
        within_capacity(machine),
    ensures
        within_capacity(machine.stepped(now).0),
{
    let current = machine.with_state(machine.state, now);
    match current.state {
        SystemState::WaitForMessage => {
            lemma_frame_is_not_empty(current.frame);
        },
        SystemState::ExecuteAction => {
            lemma_message_lengths();
        },
        SystemState::Error(fault) => {
            fault.lemma_name_is_short();
            crate::state::lemma_report_parts();
        },
        _ => {},
    }
}

proof fn lemma_advance_keeps_capacities(machine: MachineView, now: u64)
    requires
        within_capacity(machine),
    ensures
        within_capacity(machine.advanced(now).0),
    decreases MachineView::rank(machine.state),
{
    lemma_step_keeps_capacities(machine, now);
    if machine.stepped(now).1 is None {
        lemma_advance_keeps_capacities(machine.stepped(now).0, now);
    }
}

/// The buffers never outgrow their capacities.
///
/// A machine whose buffers are within their capacities (64 bytes of
/// handshake, 512 of frames, 256 each of command, response and pending
/// payload) is so again after every event: a poll, a byte, a confirmed
/// transmission, the end of a bus transaction, a handshake timeout, a
/// receive overflow, and a reset.
pub proof fn lemma_capacities_are_kept(
    machine: MachineView,
    byte: u8,
    outcome: BusOutcomeView,
    now: u64,
)
    requires
        within_capacity(machine),
    ensures
        within_capacity(MachineView::initial()),
        within_capacity(machine.reset(now)),
        within_capacity(machine.advanced(now).0),
        within_capacity(machine.byte_accepted(byte, now).0),
        within_capacity(machine.transmitted(now).0),
        within_capacity(machine.executed(outcome, now).0),
        within_capacity(machine.timed_out(now).0),
        within_capacity(machine.overflowed(now).0),
{
    lemma_advance_keeps_capacities(machine, now);
    let calm = MachineView { reply_pending: false, ..machine };
    assert(within_capacity(machine.byte_accepted(byte, now).0)) by {
        match calm.state {
            SystemState::WaitForHandshake => {
                lemma_advance_keeps_capacities(calm.handshake_stepped(byte).0, now);
            },
            SystemState::WaitForMessage => {
                if calm.frame.len() < 512 {
                    lemma_advance_keeps_capacities(
                        MachineView { frame: calm.frame.push(byte), ..calm },
                        now,
                    );
                } else {
                    lemma_advance_keeps_capacities(
                        MachineView { frame: Seq::empty(), ..calm }.failed(
                            Error::InvalidChecksum,
                            now,
                        ),
                        now,
                    );
                }
            },
            _ => {
                lemma_advance_keeps_capacities(calm, now);
            },
        }
    }
    assert(within_capacity(machine.transmitted(now).0)) by {
        let cleared = MachineView { response: Seq::empty(), ..machine };
        lemma_advance_keeps_capacities(
            MachineView {
                frame: Seq::empty(),
                handshake_complete: true,
                deadline: None,
                reply_pending: false,
                ..machine
            }.with_state(SystemState::WaitForMessage, now),
            now,
        );
        lemma_advance_keeps_capacities(cleared.with_state(SystemState::WaitForMessage, now), now);
        lemma_advance_keeps_capacities(
            cleared.armed(now).with_state(SystemState::WaitForHandshake, now),
            now,
        );
    }
    assert(within_capacity(machine.executed(outcome, now).0)) by {
        lemma_advance_keeps_capacities(calm, now);
        lemma_advance_keeps_capacities(calm.with_state(SystemState::SendResponse, now), now);
        lemma_advance_keeps_capacities(calm.failed(Error::BufferProcessFailed, now), now);
        match outcome {
            BusOutcomeView::Read(data) => {
                if calm.response.len() + data.len() <= 256 {
                    lemma_advance_keeps_capacities(
                        MachineView { response: calm.response + data, ..calm }.with_state(
                            SystemState::SendResponse,
                            now,
                        ),
                        now,
                    );
                }
            },
            BusOutcomeView::Written => {},
            BusOutcomeView::Failed(detail) => {
                lemma_message_lengths();
                lemma_advance_keeps_capacities(
                    MachineView {
                        response: after_bus_error(detail, calm.response),
                        ..calm
                    }.failed(Error::ExecutionFailed, now),
                    now,
                );
            },
        }
    }
    assert(within_capacity(machine.timed_out(now).0)) by {
        lemma_advance_keeps_capacities(
            MachineView {
                handshake: Seq::empty(),
                frame: Seq::empty(),
                handshake_complete: false,
                reply_pending: false,
                ..machine
            }.armed(now).failed(Error::Timeout, now),
            now,
        );
    }
    assert(within_capacity(machine.overflowed(now).0)) by {
        lemma_advance_keeps_capacities(
            MachineView { frame: Seq::empty(), reply_pending: false, ..machine }.failed(
                Error::InvalidChecksum,
                now,
            ),
            now,
        );
    }
}

/// Responses and fault reports are never dropped for want of room.
///
/// A machine within its capacities that has a response to send, or a fault
/// to report, asks for the transmission of a whole frame: the envelope of
/// what its response buffer then holds, which for a fault is the report.
pub proof fn lemma_answers_are_always_framed(machine: MachineView, now: u64)
    requires
        within_capacity(machine),
        machine.state == SystemState::SendResponse || machine.state is Error,
    ensures
        machine.advanced(now).1 == ActionView::Transmit(
            frame_encoding(machine.advanced(now).0.response),
        ),
        machine.state == SystemState::SendResponse ==> machine.advanced(now).0.response
            == machine.response,
        machine.state matches SystemState::Error(fault) ==> machine.advanced(now).0.response
            == error_message(fault, machine.response),
{
    lemma_step_keeps_capacities(machine, now);
    lemma_short_payload_is_sent(machine.stepped(now).0.response);
}

/// Whether the machine is at rest at `now`: it has nothing pending, and a
/// poll changes nothing and finds it waiting for input.
pub open spec fn at_rest(machine: MachineView, now: u64) -> bool {
    !machine.reply_pending && machine.advanced(now) == (machine, ActionView::AwaitInput)
}

proof fn lemma_waiting_is_rest(machine: MachineView, now: u64)
    requires
        !machine.reply_pending,
        machine.advanced(now).1 is AwaitInput,
    ensures
        at_rest(machine.advanced(now).0, now),
    decreases MachineView::rank(machine.state),
{
    if machine.stepped(now).1 is None {
        lemma_waiting_is_rest(machine.stepped(now).0, now);
    } else {
        let rested = machine.stepped(now).0;
        assert(rested.with_state(rested.state, now) == rested);
        assert(rested.stepped(now) == (rested, Some(ActionView::AwaitInput)));
    }
}

proof fn lemma_feeding_splits(
    machine: MachineView,
    asked: ActionView,
    first: Seq<u8>,
    second: Seq<u8>,
    now: u64,
)
    requires
        machine.fed(asked, first, now).2 is AwaitInput,
    ensures
        machine.fed(asked, first, now).1 == first.len(),
        machine.fed(asked, first + second, now).0 == machine.fed(asked, first, now).0.fed(
            ActionView::AwaitInput,
            second,
            now,
        ).0,
        machine.fed(asked, first + second, now).1 == first.len() + machine.fed(
            asked,
            first,
            now,
        ).0.fed(ActionView::AwaitInput, second, now).1,
        machine.fed(asked, first + second, now).2 == machine.fed(asked, first, now).0.fed(
            ActionView::AwaitInput,
            second,
            now,
        ).2,
    decreases first.len(),
{
    if first.len() == 0 {
        assert(first + second == second);
    } else {
        let next = machine.byte_accepted(first[0], now);
        assert((first + second).skip(1) == first.skip(1) + second);
        assert((first + second)[0] == first[0]);
        lemma_feeding_splits(next.0, next.1, first.skip(1), second, now);
    }
}

proof fn lemma_fed_machine_rests(machine: MachineView, asked: ActionView, data: Seq<u8>, now: u64)
    requires
        asked is AwaitInput ==> at_rest(machine, now),
        machine.fed(asked, data, now).2 is AwaitInput,
    ensures
        at_rest(machine.fed(asked, data, now).0, now),
    decreases data.len(),
{
    if data.len() > 0 && asked is AwaitInput {
        let calm = MachineView { reply_pending: false, ..machine };
        let next = machine.byte_accepted(data[0], now);
        if next.1 is AwaitInput {
            match calm.state {
                SystemState::WaitForHandshake => {
                    lemma_waiting_is_rest(calm.handshake_stepped(data[0]).0, now);
                },
                SystemState::WaitForMessage => {
                    if calm.frame.len() < 512 {
                        lemma_waiting_is_rest(
                            MachineView { frame: calm.frame.push(data[0]), ..calm },
                            now,
                        );
                    } else {
                        lemma_waiting_is_rest(
                            MachineView { frame: Seq::empty(), ..calm }.failed(
                                Error::InvalidChecksum,
                                now,
                            ),
                            now,
                        );
                    }
                },
                _ => {
                    lemma_waiting_is_rest(calm, now);
                },
            }
        }
        lemma_fed_machine_rests(next.0, next.1, data.skip(1), now);
    }
}

/// It does not matter how received bytes are cut into reads.
///
/// If the machine takes all the bytes of a first read and waits for more,
/// it is at rest; and giving it a second read afterwards leaves it in the
/// same state, and asking for the same thing, as giving it both reads as
/// one, of which it then takes as many bytes as of the two together.
pub proof fn lemma_reads_can_be_cut_anywhere(
    machine: MachineView,
    first: Seq<u8>,
    second: Seq<u8>,
    now: u64,
)
    requires
        machine.consumed(first, now).2 is AwaitInput,
    ensures
        machine.consumed(first, now).1 == first.len(),
        at_rest(machine.consumed(first, now).0, now),
        machine.consumed(first + second, now).0 == machine.consumed(first, now).0.consumed(
            second,
            now,
        ).0,
        machine.consumed(first + second, now).1 == first.len() + machine.consumed(
            first,
            now,
        ).0.consumed(second, now).1,
        machine.consumed(first + second, now).2 == machine.consumed(first, now).0.consumed(
            second,
            now,
        ).2,
{
    let calm = MachineView { reply_pending: false, ..machine };
    let polled = calm.advanced(now);
    lemma_feeding_splits(polled.0, polled.1, first, second, now);
    if polled.1 is AwaitInput {
        lemma_waiting_is_rest(calm, now);
    }
    lemma_fed_machine_rests(polled.0, polled.1, first, now);
    let rested = machine.consumed(first, now).0;
    assert(MachineView { reply_pending: false, ..rested } == rested);
}

proof fn lemma_serving_splits(
    machine: MachineView,
    asked: ActionView,
    first: Seq<u8>,
    second: Seq<u8>,
    now: u64,
)
    requires
        served(machine, asked, first, now).2 is AwaitInput,
    ensures
        served(machine, asked, first, now).1 == first.len(),
        served(machine, asked, first + second, now).0 == served(
            served(machine, asked, first, now).0,
            ActionView::AwaitInput,
            second,
            now,
        ).0,
        served(machine, asked, first + second, now).1 == first.len() + served(
            served(machine, asked, first, now).0,
            ActionView::AwaitInput,
            second,
            now,
        ).1,
        served(machine, asked, first + second, now).2 == served(
            served(machine, asked, first, now).0,
            ActionView::AwaitInput,
            second,
            now,
        ).2,
        served(machine, asked, first + second, now).3 == served(machine, asked, first, now).3
            + served(served(machine, asked, first, now).0, ActionView::AwaitInput, second, now).3,
    decreases first.len(),
{
    let calm = settled(machine, asked, now);
    if first.len() == 0 {
        assert(first + second == second);
        let later = served(calm.0, ActionView::AwaitInput, second, now);
        assert(calm.2 + later.3 == calm.2 + (Seq::<Seq<u8>>::empty() + later.3));
        assert(calm.2 + Seq::<Seq<u8>>::empty() == calm.2);
    } else {
        let next = calm.0.byte_accepted(first[0], now);
        assert((first + second).skip(1) == first.skip(1) + second);
        assert((first + second)[0] == first[0]);
        lemma_serving_splits(next.0, next.1, first.skip(1), second, now);
        let head = served(next.0, next.1, first.skip(1), now);
        let later = served(head.0, ActionView::AwaitInput, second, now);
        assert(calm.2 + (head.3 + later.3) == (calm.2 + head.3) + later.3);
    }
}

proof fn lemma_serving_stops(
    machine: MachineView,
    asked: ActionView,
    first: Seq<u8>,
    second: Seq<u8>,
    now: u64,
)
    requires
        !(served(machine, asked, first, now).2 is AwaitInput),
    ensures
        served(machine, asked, first + second, now) == served(machine, asked, first, now),
    decreases first.len(),
{
    let calm = settled(machine, asked, now);
    if first.len() == 0 {
        assert(first + second == second);
    } else if calm.1 is AwaitInput {
        let next = calm.0.byte_accepted(first[0], now);
        assert((first + second).skip(1) == first.skip(1) + second);
        assert((first + second)[0] == first[0]);
        lemma_serving_stops(next.0, next.1, first.skip(1), second, now);
    }
}

proof fn lemma_confirmed_machine_rests(machine: MachineView, now: u64)
    requires
        machine.transmitted(now).1 is AwaitInput,
    ensures
        at_rest(machine.transmitted(now).0, now),
{
    let cleared = MachineView { response: Seq::empty(), ..machine };
    let opened = MachineView {
        frame: Seq::empty(),
        handshake_complete: true,
        deadline: None,
        reply_pending: false,
        ..machine
    }.with_state(SystemState::WaitForMessage, now);
    if machine.reply_pending {
        lemma_waiting_is_rest(opened, now);
    } else if machine.state == SystemState::SendResponse {
        lemma_waiting_is_rest(cleared.with_state(SystemState::WaitForMessage, now), now);
    } else if machine.state is Error {
        if machine.handshake_complete {
            lemma_waiting_is_rest(cleared.with_state(SystemState::WaitForMessage, now), now);
        } else {
            lemma_waiting_is_rest(
                cleared.armed(now).with_state(SystemState::WaitForHandshake, now),
                now,
            );
        }
    } else {
        lemma_waiting_is_rest(machine, now);
    }
}

proof fn lemma_settled_machine_rests(machine: MachineView, asked: ActionView, now: u64)
    requires
        asked is AwaitInput ==> at_rest(machine, now),
        settled(machine, asked, now).1 is AwaitInput,
    ensures
        at_rest(settled(machine, asked, now).0, now),
    decreases machine.frame.len(), (if confirming(machine) { 0int } else { 1int }),
{
    if asked is Transmit {
        let next = machine.transmitted(now);
        lemma_confirmation_makes_progress(machine, now);
        if next.1 is Transmit {
            lemma_settled_machine_rests(next.0, next.1, now);
        } else {
            lemma_confirmed_machine_rests(machine, now);
        }
    }
}

proof fn lemma_accepting_machine_rests(machine: MachineView, byte: u8, now: u64)
    requires
        machine.byte_accepted(byte, now).1 is AwaitInput,
    ensures
        at_rest(machine.byte_accepted(byte, now).0, now),
{
    let calm = MachineView { reply_pending: false, ..machine };
    match calm.state {
        SystemState::WaitForHandshake => {
            lemma_waiting_is_rest(calm.handshake_stepped(byte).0, now);
        },
        SystemState::WaitForMessage => {
            if calm.frame.len() < 512 {
                lemma_waiting_is_rest(MachineView { frame: calm.frame.push(byte), ..calm }, now);
            } else {
                lemma_waiting_is_rest(
                    MachineView { frame: Seq::empty(), ..calm }.failed(Error::InvalidChecksum, now),
                    now,
                );
            }
        },
        _ => {
            lemma_waiting_is_rest(calm, now);
        },
    }
}

proof fn lemma_served_machine_rests(
    machine: MachineView,
    asked: ActionView,
    data: Seq<u8>,
    now: u64,
)
    requires
        asked is AwaitInput ==> at_rest(machine, now),
        served(machine, asked, data, now).2 is AwaitInput,
    ensures
        at_rest(served(machine, asked, data, now).0, now),
    decreases data.len(),
{
    let calm = settled(machine, asked, now);
    if calm.1 is AwaitInput {
        lemma_settled_machine_rests(machine, asked, now);
    }
    if data.len() > 0 && calm.1 is AwaitInput {
        let next = calm.0.byte_accepted(data[0], now);
        if next.1 is AwaitInput {
            lemma_accepting_machine_rests(calm.0, data[0], now);
        }
        lemma_served_machine_rests(next.0, next.1, data.skip(1), now);
    }
}

/// Reads can be cut anywhere, answers in between or not.
///
/// Under a driver whose writes succeed, a machine that is given a first
/// read and has then no bus transaction to wait for is at rest. Giving it a
/// second read afterwards leaves it in the same state as giving it both
/// reads as one; the same bytes have then been transmitted, in the same
/// order, the same number of bytes has been taken, and the machine asks for
/// the same thing.
pub proof fn lemma_answers_do_not_depend_on_reads(
    machine: MachineView,
    first: Seq<u8>,
    second: Seq<u8>,
    now: u64,
)
    requires
        attended(machine, first, now).2 is AwaitInput,
    ensures
        attended(machine, first, now).1 == first.len(),
        at_rest(attended(machine, first, now).0, now),
        attended(machine, first + second, now).0 == attended(
            attended(machine, first, now).0,
            second,
            now,
        ).0,
        attended(machine, first + second, now).1 == first.len() + attended(
            attended(machine, first, now).0,
            second,
            now,
        ).1,
        attended(machine, first + second, now).2 == attended(
            attended(machine, first, now).0,
            second,
            now,
        ).2,
        attended(machine, first + second, now).3 == attended(machine, first, now).3 + attended(
            attended(machine, first, now).0,
            second,
            now,
        ).3,
{
    let calm = MachineView { reply_pending: false, ..machine };
    let polled = calm.advanced(now);
    lemma_serving_splits(polled.0, polled.1, first, second, now);
    if polled.1 is AwaitInput {
        lemma_waiting_is_rest(calm, now);
    }
    lemma_served_machine_rests(polled.0, polled.1, first, now);
    let rested = attended(machine, first, now).0;
    assert(MachineView { reply_pending: false, ..rested } == rested);
}

/// The machine after a sequence of reads, each served after the one before
/// it, and all that was transmitted meanwhile.
pub open spec fn attended_in_turn(machine: MachineView, reads: Seq<Seq<u8>>, now: u64) -> (
    MachineView,
    Seq<Seq<u8>>,
)
    decreases reads.len(),
{
    if reads.len() == 0 {
        (machine, Seq::empty())
    } else {
        (
            attended_in_turn(attended(machine, reads[0], now).0, reads.skip(1), now).0,
            attended(machine, reads[0], now).3 + attended_in_turn(
                attended(machine, reads[0], now).0,
                reads.skip(1),
                now,
            ).1,
        )
    }
}

/// It does not matter how a byte stream is cut into reads.
///
/// Under a driver whose writes succeed, whenever a stream can be served as
/// one read without a bus transaction to wait for, serving it as any
/// sequence of reads (byte by byte, as one, or anything between) transmits
/// the same bytes in the same order and leaves the machine in the same
/// state, frame buffer included.
pub proof fn lemma_chunking_does_not_show(machine: MachineView, reads: Seq<Seq<u8>>, now: u64)
    requires
        reads.len() > 0,
        attended(machine, concat(reads), now).2 is AwaitInput,
    ensures
        attended_in_turn(machine, reads, now).0 == attended(machine, concat(reads), now).0,
        attended_in_turn(machine, reads, now).1 == attended(machine, concat(reads), now).3,
    decreases reads.len(),
{
    let first = reads[0];
    let later = concat(reads.skip(1));
    let calm = MachineView { reply_pending: false, ..machine };
    let polled = calm.advanced(now);
    if !(attended(machine, first, now).2 is AwaitInput) {
        lemma_serving_stops(polled.0, polled.1, first, later, now);
    }
    lemma_answers_do_not_depend_on_reads(machine, first, later, now);
    let rested = attended(machine, first, now);
    assert(concat(reads) == first + later);
    if reads.len() == 1 {
        assert(concat(reads.skip(1)) == Seq::<u8>::empty());
        assert(MachineView { reply_pending: false, ..rested.0 } == rested.0);
        assert(attended(rested.0, later, now).0 == rested.0);
        assert(attended(rested.0, later, now).3 == Seq::<Seq<u8>>::empty());
        assert(attended_in_turn(rested.0, reads.skip(1), now) == (
            rested.0,
            Seq::<Seq<u8>>::empty(),
        ));
    } else {
        lemma_chunking_does_not_show(rested.0, reads.skip(1), now);
    }
}

/// Bytes that complete no frame are buffered and nothing else happens.
///
/// A machine that waits for a message is given bytes, each of which leaves
/// the buffered bytes the beginning of a frame, within the capacity of the
/// frame buffer. It takes them all, transmits nothing, and holds
/// them behind what it held before; its stage, its response and its
/// handshake are as they were.
pub proof fn lemma_partial_frames_are_buffered(machine: MachineView, data: Seq<u8>, now: u64)
    requires
        machine.state == SystemState::WaitForMessage,
        machine.frame.len() + data.len() <= 512,
        forall|k: int|
            0 < k <= data.len() ==> decode_frame(machine.frame + #[trigger] data.take(k))
                is Incomplete,
    ensures
        served(machine, ActionView::AwaitInput, data, now).1 == data.len(),
        served(machine, ActionView::AwaitInput, data, now).2 == ActionView::AwaitInput,
        served(machine, ActionView::AwaitInput, data, now).3 == Seq::<Seq<u8>>::empty(),
        served(machine, ActionView::AwaitInput, data, now).0.state == SystemState::WaitForMessage,
        served(machine, ActionView::AwaitInput, data, now).0.frame == machine.frame + data,
        served(machine, ActionView::AwaitInput, data, now).0.response == machine.response,
        served(machine, ActionView::AwaitInput, data, now).0.handshake_complete
            == machine.handshake_complete,
        served(machine, ActionView::AwaitInput, data, now).0.pending == machine.pending,
    decreases data.len(),
{
    if data.len() == 0 {
        assert(machine.frame + data == machine.frame);
    } else {
        let calm = MachineView { reply_pending: false, ..machine };
        let held = calm.frame.push(data[0]);
        assert(held == machine.frame + data.take(1));
        let filled = MachineView { frame: held, ..calm };
        let next = machine.byte_accepted(data[0], now);
        assert(next.0 == filled.with_state(SystemState::WaitForMessage, now));
        assert(next.1 == ActionView::AwaitInput);
        assert forall|k: int| 0 < k <= data.skip(1).len() implies decode_frame(
            next.0.frame + #[trigger] data.skip(1).take(k),
        ) is Incomplete by {
            assert(held + data.skip(1).take(k) == machine.frame + data.take(k + 1));
        }
        lemma_partial_frames_are_buffered(next.0, data.skip(1), now);
        assert(held + data.skip(1) == machine.frame + data);
    }
}

/// An overlong run without a frame in it costs one fault report.
///
/// A machine that waits for a message with the handshake standing and with
/// empty frame and response buffers is given 513 bytes, of which every
/// beginning up to 512 bytes is the beginning of a frame. Under a driver
/// whose writes succeed it takes them all and transmits exactly one frame,
/// that of the report `ERR: InvalidChecksum`; afterwards it waits for a
/// message again, with an empty frame buffer.
pub proof fn lemma_overflow_is_served(machine: MachineView, data: Seq<u8>, now: u64)
    requires
        machine.state == SystemState::WaitForMessage,
        machine.handshake_complete,
        machine.frame.len() == 0,
        machine.response.len() == 0,
        data.len() == 513,
        forall|k: int| 0 < k <= 512 ==> decode_frame(#[trigger] data.take(k)) is Incomplete,
    ensures
        attended(machine, data, now).1 == 513,
        attended(machine, data, now).2 == ActionView::AwaitInput,
        attended(machine, data, now).3 == seq![
            frame_encoding(error_message(Error::InvalidChecksum, Seq::empty())),
        ],
        attended(machine, data, now).0.state == SystemState::WaitForMessage,
        attended(machine, data, now).0.frame.len() == 0,
        attended(machine, data, now).0.response.len() == 0,
        attended(machine, data, now).0.handshake_complete,
{
    let calm = MachineView { reply_pending: false, ..machine };
    lemma_empty_buffer_waits(calm, now);
    let polled = calm.advanced(now);
    let first = data.take(512);
    let last = seq![data[512]];
    assert(data == first + last);
    assert(polled.0.frame == Seq::<u8>::empty());
    assert forall|k: int| 0 < k <= first.len() implies decode_frame(
        polled.0.frame + #[trigger] first.take(k),
    ) is Incomplete by {
        assert(polled.0.frame + first.take(k) == data.take(k));
    }
    lemma_partial_frames_are_buffered(polled.0, first, now);
    lemma_serving_splits(polled.0, polled.1, first, last, now);
    let full = served(polled.0, polled.1, first, now).0;
    assert(full.response == Seq::<u8>::empty());
    lemma_overflow_is_reported(full, data[512], now);
    let struck = full.byte_accepted(data[512], now);
    let report = frame_encoding(error_message(Error::InvalidChecksum, Seq::empty()));
    assert(struck.1 == ActionView::Transmit(report));
    Error::InvalidChecksum.lemma_name_is_short();
    crate::state::lemma_report_parts();
    let cleared = MachineView { response: Seq::empty(), ..struck.0 };
    lemma_empty_buffer_waits(cleared.with_state(SystemState::WaitForMessage, now), now);
    assert(struck.0.transmitted(now).1 == ActionView::AwaitInput);
    assert(settled(struck.0, struck.1, now) == (
        struck.0.transmitted(now).0,
        ActionView::AwaitInput,
        seq![report],
    ));
    assert(last.skip(1) == Seq::<u8>::empty());
    assert(last[0] == data[512]);
    assert(served(struck.0, struck.1, last.skip(1), now) == (
        struck.0.transmitted(now).0,
        0nat,
        ActionView::AwaitInput,
        seq![report],
    ));
    assert(settled(full, ActionView::AwaitInput, now).2 + seq![report] == seq![report]);
    assert(Seq::<Seq<u8>>::empty() + seq![report] == seq![report]);
}

proof fn lemma_line_is_served(machine: MachineView, line: Seq<u8>, now: u64)
    requires
        machine.state == SystemState::WaitForHandshake,
        machine.handshake.len() + line.len() < 64,
        forall|i: int| 0 <= i < line.len() ==> line[i] != 0x0a,
    ensures
        served(machine, ActionView::AwaitInput, line, now).1 == line.len(),
        served(machine, ActionView::AwaitInput, line, now).2 == ActionView::AwaitInput,
        served(machine, ActionView::AwaitInput, line, now).3 == Seq::<Seq<u8>>::empty(),
        served(machine, ActionView::AwaitInput, line, now).0.state
            == SystemState::WaitForHandshake,
        served(machine, ActionView::AwaitInput, line, now).0.handshake == machine.handshake + line,
        served(machine, ActionView::AwaitInput, line, now).0.frame == machine.frame,
        served(machine, ActionView::AwaitInput, line, now).0.handshake_complete
            == machine.handshake_complete,
        served(machine, ActionView::AwaitInput, line, now).0.deadline == machine.deadline,
    decreases line.len(),
{
    if line.len() == 0 {
        assert(machine.handshake + line == machine.handshake);
    } else {
        let calm = MachineView { reply_pending: false, ..machine };
        let held = calm.handshake.push(line[0]);
        assert(held.subrange(held.len() - 1, held.len() as int)[0] == line[0]);
        let next = machine.byte_accepted(line[0], now);
        assert(next.1 == ActionView::AwaitInput);
        assert(next.0.handshake == held);
        lemma_line_is_served(next.0, line.skip(1), now);
        assert(held + line.skip(1) == machine.handshake + line);
    }
}

proof fn lemma_serving_settles_first(
    machine: MachineView,
    asked: ActionView,
    data: Seq<u8>,
    now: u64,
)
    requires
        settled(machine, asked, now).1 is AwaitInput,
    ensures
        served(machine, asked, data, now).0 == served(
            settled(machine, asked, now).0,
            ActionView::AwaitInput,
            data,
            now,
        ).0,
        served(machine, asked, data, now).1 == served(
            settled(machine, asked, now).0,
            ActionView::AwaitInput,
            data,
            now,
        ).1,
        served(machine, asked, data, now).2 == served(
            settled(machine, asked, now).0,
            ActionView::AwaitInput,
            data,
            now,
        ).2,
        served(machine, asked, data, now).3 == settled(machine, asked, now).2 + served(
            settled(machine, asked, now).0,
            ActionView::AwaitInput,
            data,
            now,
        ).3,
{
    let calm = settled(machine, asked, now);
    let after = served(calm.0, ActionView::AwaitInput, data, now);
    assert(calm.2 + Seq::<Seq<u8>>::empty() == calm.2);
    if data.len() > 0 {
        let next = calm.0.byte_accepted(data[0], now);
        let rest = served(next.0, next.1, data.skip(1), now);
        assert(Seq::<Seq<u8>>::empty() + rest.3 == rest.3);
    }
}

proof fn lemma_one_byte_is_served(machine: MachineView, byte: u8, data: Seq<u8>, now: u64)
    requires
        data.len() > 0,
        data[0] == byte,
    ensures
        served(machine, ActionView::AwaitInput, data, now).0 == served(
            machine.byte_accepted(byte, now).0,
            machine.byte_accepted(byte, now).1,
            data.skip(1),
            now,
        ).0,
        served(machine, ActionView::AwaitInput, data, now).1 == 1 + served(
            machine.byte_accepted(byte, now).0,
            machine.byte_accepted(byte, now).1,
            data.skip(1),
            now,
        ).1,
        served(machine, ActionView::AwaitInput, data, now).2 == served(
            machine.byte_accepted(byte, now).0,
            machine.byte_accepted(byte, now).1,
            data.skip(1),
            now,
        ).2,
        served(machine, ActionView::AwaitInput, data, now).3 == served(
            machine.byte_accepted(byte, now).0,
            machine.byte_accepted(byte, now).1,
            data.skip(1),
            now,
        ).3,
{
    let next = machine.byte_accepted(byte, now);
    let rest = served(next.0, next.1, data.skip(1), now);
    assert(Seq::<Seq<u8>>::empty() + rest.3 == rest.3);
}

proof fn lemma_poll_before_handshake(machine: MachineView, now: u64)
    requires
        machine.state == SystemState::Init || machine.state == SystemState::WaitForHandshake,
    ensures
        machine.advanced(now).1 == ActionView::AwaitInput,
        machine.advanced(now).0.state == SystemState::WaitForHandshake,
        machine.advanced(now).0.handshake == machine.handshake,
        machine.advanced(now).0.frame == machine.frame,
        machine.advanced(now).0.handshake_complete == machine.handshake_complete,
        machine.state == SystemState::Init || machine.deadline is Some ==> machine.advanced(
            now,
        ).0.deadline is Some,
{
    reveal_with_fuel(MachineView::advanced, 3);
}

proof fn lemma_delimiter_decides(machine: MachineView, now: u64)
    requires
        machine.state == SystemState::WaitForHandshake,
        machine.handshake.len() < 64,
        forall|i: int| 0 <= i < machine.handshake.len() ==> machine.handshake[i] != 0x0a,
    ensures
        machine.handshake == handshake_command_bytes() ==> machine.byte_accepted(0x0a, now).1
            == ActionView::Transmit(handshake_response_bytes()),
        machine.handshake == handshake_command_bytes() ==> machine.byte_accepted(
            0x0a,
            now,
        ).0.transmitted(now).1 == ActionView::AwaitInput,
        machine.handshake == handshake_command_bytes() ==> machine.byte_accepted(
            0x0a,
            now,
        ).0.transmitted(now).0.state == SystemState::WaitForMessage,
        machine.handshake == handshake_command_bytes() ==> machine.byte_accepted(
            0x0a,
            now,
        ).0.transmitted(now).0.handshake_complete,
        machine.handshake == handshake_command_bytes() ==> machine.byte_accepted(
            0x0a,
            now,
        ).0.transmitted(now).0.handshake.len() == 0,
        machine.handshake == handshake_command_bytes() ==> machine.byte_accepted(
            0x0a,
            now,
        ).0.transmitted(now).0.frame.len() == 0,
        machine.handshake != handshake_command_bytes() ==> machine.byte_accepted(0x0a, now).1
            == ActionView::AwaitInput,
        machine.handshake != handshake_command_bytes() ==> machine.byte_accepted(0x0a, now).0.state
            == SystemState::WaitForHandshake,
        machine.handshake != handshake_command_bytes() ==> machine.byte_accepted(
            0x0a,
            now,
        ).0.handshake.len() == 0,
        machine.handshake != handshake_command_bytes() ==> machine.byte_accepted(
            0x0a,
            now,
        ).0.handshake_complete == machine.handshake_complete,
        machine.handshake != handshake_command_bytes() ==> machine.byte_accepted(0x0a, now).0.frame
            == machine.frame,
        machine.handshake != handshake_command_bytes() ==> machine.byte_accepted(
            0x0a,
            now,
        ).0.deadline == machine.deadline,
{
    let quiet = MachineView { reply_pending: false, ..machine };
    let held = quiet.handshake.push(0x0a);
    assert(held.subrange(held.len() - 1, held.len() as int) == seq![0x0au8]);
    assert(held.subrange(0, held.len() - 1) == machine.handshake);
    if machine.handshake == handshake_command_bytes() {
        let struck = machine.byte_accepted(0x0a, now).0;
        let opened = MachineView {
            frame: Seq::empty(),
            handshake_complete: true,
            deadline: None,
            reply_pending: false,
            ..struck
        }.with_state(SystemState::WaitForMessage, now);
        lemma_empty_buffer_waits(opened, now);
    }
}

/// The handshake, as a driver sees it whose writes succeed.
///
/// A machine in `Init` or waiting for the handshake, with an empty scratch
/// buffer, is given a line of fewer than 64 bytes and the delimiter. It
/// takes them all. If the line is the handshake phrase, exactly the fixed
/// answer is transmitted, once and unframed; the machine then waits for
/// messages, the handshake stands, scratch and frame buffer are empty, and
/// no handshake timeout is left to wait for. After every other line, the
/// phrase in other letters too, nothing is transmitted; the machine waits
/// for the handshake, the line is dropped from the scratch buffer, and the
/// deadline stays armed.
pub proof fn lemma_handshake_is_served(machine: MachineView, line: Seq<u8>, now: u64)
    requires
        machine.state == SystemState::Init || machine.state == SystemState::WaitForHandshake,
        machine.handshake.len() == 0,
        line.len() < 64,
        forall|i: int| 0 <= i < line.len() ==> line[i] != 0x0a,
    ensures
        attended(machine, line + seq![0x0au8], now).1 == line.len() + 1,
        attended(machine, line + seq![0x0au8], now).2 == ActionView::AwaitInput,
        attended(machine, line + seq![0x0au8], now).0.handshake.len() == 0,
        line == handshake_command_bytes() ==> attended(machine, line + seq![0x0au8], now).3
            == seq![handshake_response_bytes()],
        line == handshake_command_bytes() ==> attended(machine, line + seq![0x0au8], now).0.state
            == SystemState::WaitForMessage,
        line == handshake_command_bytes() ==> attended(
            machine,
            line + seq![0x0au8],
            now,
        ).0.handshake_complete,
        line == handshake_command_bytes() ==> attended(
            machine,
            line + seq![0x0au8],
            now,
        ).0.frame.len() == 0,
        line == handshake_command_bytes() ==> attended(
            machine,
            line + seq![0x0au8],
            now,
        ).0.timeout_remaining(now) is None,
        line != handshake_command_bytes() ==> attended(machine, line + seq![0x0au8], now).3
            == Seq::<Seq<u8>>::empty(),
        line != handshake_command_bytes() ==> attended(machine, line + seq![0x0au8], now).0.state
            == SystemState::WaitForHandshake,
        line != handshake_command_bytes() ==> attended(
            machine,
            line + seq![0x0au8],
            now,
        ).0.handshake_complete == machine.handshake_complete,
        line != handshake_command_bytes() ==> attended(machine, line + seq![0x0au8], now).0.frame
            == machine.frame,
        line != handshake_command_bytes() && (machine.state == SystemState::Init
            || machine.deadline is Some) ==> attended(
            machine,
            line + seq![0x0au8],
            now,
        ).0.deadline is Some,
{
    let calm = MachineView { reply_pending: false, ..machine };
    lemma_poll_before_handshake(calm, now);
    let polled = calm.advanced(now);
    let last = seq![0x0au8];
    lemma_line_is_served(polled.0, line, now);
    assert(polled.0.handshake + line == line);
    lemma_serving_splits(polled.0, polled.1, line, last, now);
    let typed_in = served(polled.0, polled.1, line, now).0;
    lemma_delimiter_decides(typed_in, now);
    lemma_one_byte_is_served(typed_in, 0x0a, last, now);
    let struck = typed_in.byte_accepted(0x0a, now);
    assert(last.skip(1) == Seq::<u8>::empty());
    assert(served(struck.0, struck.1, last.skip(1), now) == (
        settled(struck.0, struck.1, now).0,
        0nat,
        settled(struck.0, struck.1, now).1,
        settled(struck.0, struck.1, now).2,
    ));
    assert(Seq::<Seq<u8>>::empty() + settled(struck.0, struck.1, now).2 == settled(
        struck.0,
        struck.1,
        now,
    ).2);
}

proof fn lemma_last_byte_completes_echo(machine: MachineView, text: Seq<u8>, now: u64)
    requires
        machine.state == SystemState::WaitForMessage,
        text.len() <= 248,
        machine.frame.len() + 1 == frame_encoding(
            command_bytes(CommandView::EchoWrite { payload: text }),
        ).len(),
        machine.frame == frame_encoding(
            command_bytes(CommandView::EchoWrite { payload: text }),
        ).take(machine.frame.len() as int),
    ensures
        settled(
            machine.byte_accepted(
                frame_encoding(
                    command_bytes(CommandView::EchoWrite { payload: text }),
                )[machine.frame.len() as int],
                now,
            ).0,
            machine.byte_accepted(
                frame_encoding(
                    command_bytes(CommandView::EchoWrite { payload: text }),
                )[machine.frame.len() as int],
                now,
            ).1,
            now,
        ).1 == ActionView::AwaitInput,
        settled(
            machine.byte_accepted(
                frame_encoding(
                    command_bytes(CommandView::EchoWrite { payload: text }),
                )[machine.frame.len() as int],
                now,
            ).0,
            machine.byte_accepted(
                frame_encoding(
                    command_bytes(CommandView::EchoWrite { payload: text }),
                )[machine.frame.len() as int],
                now,
            ).1,
            now,
        ).2 == seq![frame_encoding(ECHO_PREFIX@ + text)],
        settled(
            machine.byte_accepted(
                frame_encoding(
                    command_bytes(CommandView::EchoWrite { payload: text }),
                )[machine.frame.len() as int],
                now,
            ).0,
            machine.byte_accepted(
                frame_encoding(
                    command_bytes(CommandView::EchoWrite { payload: text }),
                )[machine.frame.len() as int],
                now,
            ).1,
            now,
        ).0.state == SystemState::WaitForMessage,
        settled(
            machine.byte_accepted(
                frame_encoding(
                    command_bytes(CommandView::EchoWrite { payload: text }),
                )[machine.frame.len() as int],
                now,
            ).0,
            machine.byte_accepted(
                frame_encoding(
                    command_bytes(CommandView::EchoWrite { payload: text }),
                )[machine.frame.len() as int],
                now,
            ).1,
            now,
        ).0.frame.len() == 0,
{
    let envelope = frame_encoding(command_bytes(CommandView::EchoWrite { payload: text }));
    let answer = frame_encoding(ECHO_PREFIX@ + text);
    lemma_short_payload_is_sent(command_bytes(CommandView::EchoWrite { payload: text }));
    let byte = envelope[machine.frame.len() as int];
    let quiet = MachineView { reply_pending: false, ..machine };
    let whole = MachineView { frame: quiet.frame.push(byte), ..quiet };
    assert(whole.frame == envelope + Seq::<u8>::empty());
    lemma_echo_is_answered(whole, text, Seq::<u8>::empty(), now);
    lemma_advance_consumes(whole, now);
    let struck = machine.byte_accepted(byte, now);
    assert(struck == whole.advanced(now));
    assert(struck.1 == ActionView::Transmit(answer));
    assert(struck.0.frame == Seq::<u8>::empty());
    assert(!struck.0.reply_pending);
    let cleared = MachineView { response: Seq::empty(), ..struck.0 }.with_state(
        SystemState::WaitForMessage,
        now,
    );
    lemma_empty_buffer_waits(cleared, now);
    assert(struck.0.transmitted(now) == cleared.advanced(now));
}

/// An echo, as a driver sees it whose writes succeed.
///
/// A machine that waits for a message with an empty frame buffer is given
/// the frame of an echo command and, behind it, bytes of which every
/// beginning is the beginning of a frame. It takes them all and transmits
/// exactly one frame: that of the prefix and the text. The bytes behind the
/// command's frame are then what its frame buffer holds, and it waits for a
/// message.
#[verifier::rlimit(60)]
pub proof fn lemma_echo_is_served(machine: MachineView, text: Seq<u8>, rest: Seq<u8>, now: u64)
    requires
        machine.state == SystemState::WaitForMessage,
        machine.frame.len() == 0,
        text.len() <= 248,
        rest.len() <= 512,
        forall|k: int| 0 < k <= rest.len() ==> decode_frame(#[trigger] rest.take(k)) is Incomplete,
    ensures
        attended(
            machine,
            frame_encoding(command_bytes(CommandView::EchoWrite { payload: text })) + rest,
            now,
        ).1 == frame_encoding(command_bytes(CommandView::EchoWrite { payload: text })).len()
            + rest.len(),
        attended(
            machine,
            frame_encoding(command_bytes(CommandView::EchoWrite { payload: text })) + rest,
            now,
        ).2 == ActionView::AwaitInput,
        attended(
            machine,
            frame_encoding(command_bytes(CommandView::EchoWrite { payload: text })) + rest,
            now,
        ).3 == seq![frame_encoding(ECHO_PREFIX@ + text)],
        attended(
            machine,
            frame_encoding(command_bytes(CommandView::EchoWrite { payload: text })) + rest,
            now,
        ).0.frame == rest,
        attended(
            machine,
            frame_encoding(command_bytes(CommandView::EchoWrite { payload: text })) + rest,
            now,
        ).0.state == SystemState::WaitForMessage,
{
    let envelope = frame_encoding(command_bytes(CommandView::EchoWrite { payload: text }));
    let answer = frame_encoding(ECHO_PREFIX@ + text);
    let size = envelope.len() as int;
    lemma_short_payload_is_sent(command_bytes(CommandView::EchoWrite { payload: text }));
    lemma_round_trip(
        command_bytes(CommandView::EchoWrite { payload: text }),
        Seq::<u8>::empty(),
    );
    assert(envelope + Seq::<u8>::empty() == envelope);
    let calm = MachineView { reply_pending: false, ..machine };
    lemma_empty_buffer_waits(calm, now);
    let polled = calm.advanced(now);
    let head = envelope.take(size - 1);
    let tail = seq![envelope[size - 1]] + rest;
    assert(envelope + rest == head + tail);
    assert forall|k: int| 0 < k <= head.len() implies decode_frame(
        polled.0.frame + #[trigger] head.take(k),
    ) is Incomplete by {
        assert(polled.0.frame + head.take(k) == envelope.subrange(0, k));
        lemma_partial_frame_is_incomplete(envelope, k as nat);
    }
    lemma_partial_frames_are_buffered(polled.0, head, now);
    lemma_serving_splits(polled.0, polled.1, head, tail, now);
    let nearly = served(polled.0, polled.1, head, now).0;
    assert(polled.0.frame + head == head);
    lemma_last_byte_completes_echo(nearly, text, now);
    lemma_one_byte_is_served(nearly, envelope[size - 1], tail, now);
    let struck = nearly.byte_accepted(envelope[size - 1], now);
    assert(tail.skip(1) == rest);
    lemma_serving_settles_first(struck.0, struck.1, rest, now);
    let answered = settled(struck.0, struck.1, now).0;
    assert forall|k: int| 0 < k <= rest.len() implies decode_frame(
        answered.frame + #[trigger] rest.take(k),
    ) is Incomplete by {
        assert(answered.frame + rest.take(k) == rest.take(k));
    }
    lemma_partial_frames_are_buffered(answered, rest, now);
    assert(answered.frame + rest == rest);
    assert(seq![answer] + Seq::<Seq<u8>>::empty() == seq![answer]);
    assert(Seq::<Seq<u8>>::empty() + seq![answer] == seq![answer]);
}

/// The machine after a poll, and what it asks for.
pub open spec fn polled(machine: MachineView, now: u64) -> (MachineView, ActionView) {
    MachineView { reply_pending: false, ..machine }.advanced(now)
}

/// Whether the machine waits for received bytes and holds nothing else: it
/// waits for the handshake or for a message, its command and response
/// buffers are empty, and no command is pending.
pub open spec fn tidy(machine: MachineView) -> bool {
    &&& machine.state == SystemState::WaitForHandshake || machine.state
        == SystemState::WaitForMessage
    &&& machine.command.len() == 0
    &&& machine.response.len() == 0
    &&& machine.pending is None
}

/// Whether the machine holds only what belongs to its stage, in the midst
/// of an event or between two.
spec fn consistent(machine: MachineView) -> bool {
    &&& machine.reply_pending ==> machine.state == SystemState::WaitForHandshake
    &&& machine.state != SystemState::ParseCommand ==> machine.command.len() == 0
    &&& machine.state != SystemState::ExecuteAction ==> machine.pending is None
    &&& (machine.state == SystemState::Init || machine.state == SystemState::WaitForHandshake
        || machine.state == SystemState::WaitForMessage || machine.state
        == SystemState::ParseCommand) ==> machine.response.len() == 0
}

/// Whether the machine, between two events, holds only what belongs to its
/// stage: no command payload and no pending command; a response only from
/// the execution of a command to the confirmation of its transmission; and
/// an unconfirmed handshake answer only while it waits for the handshake.
pub open spec fn orderly(machine: MachineView) -> bool {
    &&& machine.reply_pending ==> machine.state == SystemState::WaitForHandshake
    &&& machine.state != SystemState::ParseCommand
    &&& machine.command.len() == 0
    &&& machine.pending is None
    &&& (machine.state == SystemState::Init || machine.state == SystemState::WaitForHandshake
        || machine.state == SystemState::WaitForMessage) ==> machine.response.len() == 0
}

proof fn lemma_step_keeps_order(machine: MachineView, now: u64)
    requires
        consistent(machine),
    ensures
        consistent(machine.stepped(now).0),
        machine.stepped(now).1 is Some ==> orderly(machine.stepped(now).0),
        machine.stepped(now).1 is Some && machine.stepped(now).1->Some_0 is AwaitInput
            ==> machine.stepped(now).0.state == SystemState::WaitForHandshake
            || machine.stepped(now).0.state == SystemState::WaitForMessage,
{
}

proof fn lemma_advance_keeps_order(machine: MachineView, now: u64)
    requires
        consistent(machine),
    ensures
        orderly(machine.advanced(now).0),
        machine.advanced(now).1 is AwaitInput ==> tidy(machine.advanced(now).0),
    decreases MachineView::rank(machine.state),
{
    lemma_step_keeps_order(machine, now);
    if machine.stepped(now).1 is None {
        lemma_advance_keeps_order(machine.stepped(now).0, now);
    }
}

/// A machine at rest holds nothing but received bytes.
///
/// An orderly machine is orderly again after every event. Whenever it then
/// waits for input, it waits for the handshake or for a message, and its
/// command and response buffers are empty and no command is pending: all
/// that it holds are the bytes of a line or of a frame that is not complete
/// yet.
pub proof fn lemma_order_is_kept(
    machine: MachineView,
    byte: u8,
    outcome: BusOutcomeView,
    now: u64,
)
    requires
        orderly(machine),
    ensures
        orderly(MachineView::initial()),
        orderly(machine.reset(now)),
        orderly(polled(machine, now).0),
        orderly(machine.byte_accepted(byte, now).0),
        orderly(machine.transmitted(now).0),
        orderly(machine.executed(outcome, now).0),
        orderly(machine.timed_out(now).0),
        orderly(machine.overflowed(now).0),
        polled(machine, now).1 is AwaitInput ==> tidy(polled(machine, now).0),
        machine.byte_accepted(byte, now).1 is AwaitInput ==> tidy(
            machine.byte_accepted(byte, now).0,
        ),
        machine.transmitted(now).1 is AwaitInput ==> tidy(machine.transmitted(now).0),
        machine.executed(outcome, now).1 is AwaitInput ==> tidy(machine.executed(outcome, now).0),
{
    let calm = MachineView { reply_pending: false, ..machine };
    lemma_advance_keeps_order(calm, now);
    assert(orderly(machine.byte_accepted(byte, now).0) && (machine.byte_accepted(byte, now).1
        is AwaitInput ==> tidy(machine.byte_accepted(byte, now).0))) by {
        match calm.state {
            SystemState::WaitForHandshake => {
                lemma_advance_keeps_order(calm.handshake_stepped(byte).0, now);
            },
            SystemState::WaitForMessage => {
                if calm.frame.len() < 512 {
                    lemma_advance_keeps_order(
                        MachineView { frame: calm.frame.push(byte), ..calm },
                        now,
                    );
                } else {
                    lemma_advance_keeps_order(
                        MachineView { frame: Seq::empty(), ..calm }.failed(
                            Error::InvalidChecksum,
                            now,
                        ),
                        now,
                    );
                }
            },
            _ => {},
        }
    }
    assert(orderly(machine.transmitted(now).0) && (machine.transmitted(now).1 is AwaitInput
        ==> tidy(machine.transmitted(now).0))) by {
        let cleared = MachineView { response: Seq::empty(), ..machine };
        if machine.reply_pending {
            lemma_advance_keeps_order(
                MachineView {
                    frame: Seq::empty(),
                    handshake_complete: true,
                    deadline: None,
                    reply_pending: false,
                    ..machine
                }.with_state(SystemState::WaitForMessage, now),
                now,
            );
        } else if machine.state == SystemState::SendResponse || machine.state is Error {
            lemma_advance_keeps_order(cleared.with_state(SystemState::WaitForMessage, now), now);
            lemma_advance_keeps_order(
                cleared.armed(now).with_state(SystemState::WaitForHandshake, now),
                now,
            );
        } else {
            lemma_advance_keeps_order(machine, now);
        }
    }
    assert(orderly(machine.executed(outcome, now).0) && (machine.executed(outcome, now).1
        is AwaitInput ==> tidy(machine.executed(outcome, now).0))) by {
        if calm.state == SystemState::ExecuteAction {
            match outcome {
                BusOutcomeView::Read(data) => {
                    if calm.response.len() + data.len() <= 256 {
                        lemma_advance_keeps_order(
                            MachineView { response: calm.response + data, ..calm }.with_state(
                                SystemState::SendResponse,
                                now,
                            ),
                            now,
                        );
                    } else {
                        lemma_advance_keeps_order(
                            calm.failed(Error::BufferProcessFailed, now),
                            now,
                        );
                    }
                },
                BusOutcomeView::Written => {
                    lemma_advance_keeps_order(
                        calm.with_state(SystemState::SendResponse, now),
                        now,
                    );
                },
                BusOutcomeView::Failed(detail) => {
                    lemma_advance_keeps_order(
                        MachineView {
                            response: after_bus_error(detail, calm.response),
                            ..calm
                        }.failed(Error::ExecutionFailed, now),
                        now,
                    );
                },
            }
        }
    }
    assert(orderly(machine.timed_out(now).0)) by {
        lemma_advance_keeps_order(
            MachineView {
                handshake: Seq::empty(),
                frame: Seq::empty(),
                handshake_complete: false,
                reply_pending: false,
                ..machine
            }.armed(now).failed(Error::Timeout, now),
            now,
        );
    }
    assert(orderly(machine.overflowed(now).0)) by {
        lemma_advance_keeps_order(
            MachineView { frame: Seq::empty(), reply_pending: false, ..machine }.failed(
                Error::InvalidChecksum,
                now,
            ),
            now,
        );
    }
}

proof fn lemma_settling_keeps_order(machine: MachineView, asked: ActionView, now: u64)
    requires
        orderly(machine),
        asked is AwaitInput ==> tidy(machine),
    ensures
        orderly(settled(machine, asked, now).0),
        settled(machine, asked, now).1 is AwaitInput ==> tidy(settled(machine, asked, now).0),
    decreases machine.frame.len(), (if confirming(machine) { 0int } else { 1int }),
{
    if asked is Transmit {
        let next = machine.transmitted(now);
        lemma_order_is_kept(machine, 0, BusOutcomeView::Written, now);
        lemma_confirmation_makes_progress(machine, now);
        if next.1 is Transmit {
            lemma_settling_keeps_order(next.0, next.1, now);
        }
    }
}

proof fn lemma_serving_keeps_order(
    machine: MachineView,
    asked: ActionView,
    data: Seq<u8>,
    now: u64,
)
    requires
        orderly(machine),
        asked is AwaitInput ==> tidy(machine),
    ensures
        orderly(served(machine, asked, data, now).0),
        served(machine, asked, data, now).2 is AwaitInput ==> tidy(
            served(machine, asked, data, now).0,
        ),
    decreases data.len(),
{
    let calm = settled(machine, asked, now);
    lemma_settling_keeps_order(machine, asked, now);
    if data.len() > 0 && calm.1 is AwaitInput {
        let next = calm.0.byte_accepted(data[0], now);
        lemma_order_is_kept(calm.0, data[0], BusOutcomeView::Written, now);
        lemma_serving_keeps_order(next.0, next.1, data.skip(1), now);
    }
}

/// Served reads leave an orderly machine orderly.
///
/// Under a driver whose writes succeed, an orderly machine is orderly after
/// every read; and when it then has no bus transaction to wait for, it
/// waits for the handshake or for a message with empty command and
/// response buffers and without a pending command.
pub proof fn lemma_served_machine_is_tidy(machine: MachineView, data: Seq<u8>, now: u64)
    requires
        orderly(machine),
    ensures
        orderly(attended(machine, data, now).0),
        attended(machine, data, now).2 is AwaitInput ==> tidy(attended(machine, data, now).0),
{
    lemma_order_is_kept(machine, 0, BusOutcomeView::Written, now);
    let first = polled(machine, now);
    lemma_serving_keeps_order(first.0, first.1, data, now);
}

} // verus!
