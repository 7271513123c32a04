//! A connection whose transmissions always succeed.
//!
//! The state machine asks for every write and waits for its confirmation.
//! Here the confirmations are given at once: the bytes that the machine
//! asks to transmit are collected in the order in which it asks, and the
//! machine goes on. What is left to a driver is the bus: serving stops when
//! the machine asks for a bus transaction.

use vstd::prelude::*;

use crate::state::{Action, ActionView, MachineView, StateMachine, SystemState};
use crate::status_led::MAX_INSTANT_MICROS;
use crate::transport::lemma_frame_is_not_empty;

verus! {

/// Whether the machine is in a stage in which it asks for a transmission.
pub open spec fn confirming(machine: MachineView) -> bool {
    machine.reply_pending || machine.state == SystemState::SendResponse || machine.state is Error
}

/// The machine after every transmission it asks for has been confirmed as
/// soon as it was asked for, beginning with `asked`: the machine, what it
/// asks for in the end (to await input, or a bus transaction), and the
/// transmissions in their order.
pub open spec fn settled(machine: MachineView, asked: ActionView, now: u64) -> (
    MachineView,
    ActionView,
    Seq<Seq<u8>>,
)
    decreases machine.frame.len(), (if confirming(machine) { 0int } else { 1int }),
    via settled_decreases
{
    if asked is Transmit {
        let next = machine.transmitted(now);
        if next.1 is Transmit {
            (
                settled(next.0, next.1, now).0,
                settled(next.0, next.1, now).1,
                seq![asked->Transmit_0] + settled(next.0, next.1, now).2,
            )
        } else {
            (next.0, next.1, seq![asked->Transmit_0])
        }
    } else {
        (machine, asked, Seq::empty())
    }
}

#[via_fn]
proof fn settled_decreases(machine: MachineView, asked: ActionView, now: u64) {
    lemma_confirmation_makes_progress(machine, now);
}

/// Driving the machine forward never adds to the frame buffer. A machine
/// that ends up asking for a transmission is then in `SendResponse` or in
/// `Error`; if it set out waiting for a message, it has taken bytes out of
/// the frame buffer; and it did not set out before the handshake.
pub proof fn lemma_advance_consumes(machine: MachineView, now: u64)
    ensures
        machine.advanced(now).0.frame.len() <= machine.frame.len(),
        machine.advanced(now).0.reply_pending == machine.reply_pending,
        machine.advanced(now).1 is Transmit ==> machine.advanced(now).0.state
            == SystemState::SendResponse || machine.advanced(now).0.state is Error,
        machine.advanced(now).1 is Transmit && machine.state == SystemState::WaitForMessage
            ==> machine.advanced(now).0.frame.len() < machine.frame.len(),
        machine.state == SystemState::Init || machine.state == SystemState::WaitForHandshake
            ==> machine.advanced(now).1 is AwaitInput,
    decreases MachineView::rank(machine.state),
{
    let current = machine.with_state(machine.state, now);
    lemma_frame_is_not_empty(current.frame);
    if machine.stepped(now).1 is None {
        lemma_advance_consumes(machine.stepped(now).0, now);
    }
}

/// A confirmation that is answered with the next transmission has brought
/// the machine on: bytes have left the frame buffer, or the machine has
/// reached a stage in which it asks for a transmission.
pub proof fn lemma_confirmation_makes_progress(machine: MachineView, now: u64)
    ensures
        machine.transmitted(now).1 is Transmit ==> confirming(machine.transmitted(now).0),
        machine.transmitted(now).1 is Transmit ==> machine.transmitted(now).0.frame.len()
            <= machine.frame.len(),
        machine.transmitted(now).1 is Transmit && confirming(machine) ==> machine.transmitted(
            now,
        ).0.frame.len() < machine.frame.len(),
        !machine.transmitted(now).0.reply_pending,
{
    let cleared = MachineView { response: Seq::empty(), ..machine };
    lemma_advance_consumes(
        MachineView {
            frame: Seq::empty(),
            handshake_complete: true,
            deadline: None,
            reply_pending: false,
            ..machine
        }.with_state(SystemState::WaitForMessage, now),
        now,
    );
    lemma_advance_consumes(cleared.with_state(SystemState::WaitForMessage, now), now);
    lemma_advance_consumes(cleared.armed(now).with_state(SystemState::WaitForHandshake, now), now);
    lemma_advance_consumes(machine, now);
}

/// The machine after as many of the bytes of `data` as it takes, every
/// transmission being confirmed at once, before it asks for a bus
/// transaction: the machine, the number of bytes taken, what it asks for in
/// the end, and the transmissions in their order. `asked` is what it asked
/// for last.
pub open spec fn served(machine: MachineView, asked: ActionView, data: Seq<u8>, now: u64) -> (
    MachineView,
    nat,
    ActionView,
    Seq<Seq<u8>>,
)
    decreases data.len(),
{
    let calm = settled(machine, asked, now);
    if data.len() == 0 || !(calm.1 is AwaitInput) {
        (calm.0, 0, calm.1, calm.2)
    } else {
        let next = calm.0.byte_accepted(data[0], now);
        let rest = served(next.0, next.1, data.skip(1), now);
        (rest.0, rest.1 + 1, rest.2, calm.2 + rest.3)
    }
}

/// The machine after a poll and then the bytes of `data`, every
/// transmission being confirmed at once.
pub open spec fn attended(machine: MachineView, data: Seq<u8>, now: u64) -> (
    MachineView,
    nat,
    ActionView,
    Seq<Seq<u8>>,
) {
    let polled = MachineView { reply_pending: false, ..machine }.advanced(now);
    served(polled.0, polled.1, data, now)
}

impl StateMachine {
    /// Confirms every transmission that the machine asks for, beginning
    /// with `action`, and appends the transmitted bytes to `sent`. Returns
    /// what the machine asks for in the end.
    fn settle(&mut self, asked: Action, sent: &mut Vec<Vec<u8>>, now: u64) -> (last: Action)
        requires
            now <= MAX_INSTANT_MICROS,
        ensures
            final(self)@ == settled(old(self)@, asked@, now).0,
            last@ == settled(old(self)@, asked@, now).1,
            final(sent).deep_view() == old(sent).deep_view() + settled(old(self)@, asked@, now).2,
            !(last is Transmit),
    {
        let ghost first = asked@;
        let mut action = asked;
        assert(old(sent).deep_view() + settled(old(self)@, first, now).2 == sent.deep_view()
            + settled(self@, action@, now).2);
        loop
            invariant
                now <= MAX_INSTANT_MICROS,
                first == asked@,
                settled(old(self)@, first, now).0 == settled(self@, action@, now).0,
                settled(old(self)@, first, now).1 == settled(self@, action@, now).1,
                old(sent).deep_view() + settled(old(self)@, first, now).2 == sent.deep_view()
                    + settled(self@, action@, now).2,
            decreases self@.frame.len(), (if confirming(self@) { 0int } else { 1int }),
        {
            let ghost before = self@;
            let ghost current = action@;
            let ghost pushed = sent.deep_view();
            match action {
                Action::Transmit(bytes) => {
                    let ghost wanted = bytes@;
                    assert(current == ActionView::Transmit(wanted));
                    assert(bytes.deep_view() == bytes@);
                    sent.push(bytes);
                    assert(sent.deep_view() == pushed.push(wanted));
                    let next = self.transmit_complete(now);
                    proof {
                        lemma_confirmation_makes_progress(before, now);
                        assert(pushed.push(wanted) == pushed + seq![wanted]);
                        assert(pushed + (seq![wanted] + settled(self@, next@, now).2) == (pushed
                            + seq![wanted]) + settled(self@, next@, now).2);
                        assert(pushed + seq![wanted] + Seq::<Seq<u8>>::empty() == pushed
                            + seq![wanted]);
                    }
                    if !matches!(next, Action::Transmit(_)) {
                        return next;
                    }
                    action = next;
                },
                other => {
                    assert(other@ == current);
                    assert(sent.deep_view() + Seq::<Seq<u8>>::empty() == sent.deep_view());
                    return other;
                },
            }
        }
    }

    /// Feeds received bytes to the machine as a driver does whose writes
    /// always succeed.
    ///
    /// The machine is polled, every transmission it asks for is confirmed
    /// at once, and the bytes of `data` are fed to it one by one. Returned
    /// are the number of bytes taken, what the machine asks for in the end,
    /// and the transmitted bytes in their order. The end is `AwaitInput`
    /// when all of `data` was taken, and a bus transaction otherwise: the
    /// caller performs it, reports with
    /// [`StateMachine::complete_execution`], and comes again with the bytes
    /// that were not taken.
    pub fn serve(&mut self, data: &[u8], now: u64) -> (outcome: (usize, Action, Vec<Vec<u8>>))
        requires
            now <= MAX_INSTANT_MICROS,
        ensures
            final(self)@ == attended(old(self)@, data@, now).0,
            outcome.0 == attended(old(self)@, data@, now).1,
            outcome.1@ == attended(old(self)@, data@, now).2,
            outcome.2.deep_view() == attended(old(self)@, data@, now).3,
            outcome.0 <= data@.len(),
            outcome.1 is AwaitInput ==> outcome.0 == data@.len(),
            !(outcome.1 is Transmit),
    {
        let mut sent: Vec<Vec<u8>> = Vec::new();
        let mut action = self.advance(now);
        let mut taken: usize = 0;
        assert(data@.skip(0) == data@);
        assert(sent.deep_view() == Seq::<Seq<u8>>::empty());
        loop
            invariant
                now <= MAX_INSTANT_MICROS,
                taken <= data@.len(),
                attended(old(self)@, data@, now).0 == served(
                    self@,
                    action@,
                    data@.skip(taken as int),
                    now,
                ).0,
                attended(old(self)@, data@, now).1 == taken + served(
                    self@,
                    action@,
                    data@.skip(taken as int),
                    now,
                ).1,
                attended(old(self)@, data@, now).2 == served(
                    self@,
                    action@,
                    data@.skip(taken as int),
                    now,
                ).2,
                attended(old(self)@, data@, now).3 == sent.deep_view() + served(
                    self@,
                    action@,
                    data@.skip(taken as int),
                    now,
                ).3,
            decreases data@.len() - taken,
        {
            let ghost before = self@;
            let ghost asked = action@;
            let ghost pushed = sent.deep_view();
            let calm = self.settle(action, &mut sent, now);
            if taken >= data.len() || !matches!(calm, Action::AwaitInput) {
                assert(sent.deep_view() == pushed + settled(before, asked, now).2);
                return (taken, calm, sent);
            }
            proof {
                assert(data@.skip(taken as int).skip(1) == data@.skip(taken + 1));
                let next = self@.byte_accepted(data@[taken as int], now);
                let rest = served(next.0, next.1, data@.skip(taken + 1), now);
                assert(pushed + (settled(before, asked, now).2 + rest.3) == (pushed + settled(
                    before,
                    asked,
                    now,
                ).2) + rest.3);
            }
            action = self.accept_byte(data[taken], now);
            taken = taken + 1;
        }
    }
}

} // verus!
