//! Status indicator: colours, patterns, and the bookkeeping that decides
//! which pattern the indicator task is asked to show.
//!
//! Times are plain numbers: instants and hold durations in microseconds,
//! blink and pulse periods in milliseconds.

use vstd::prelude::*;

use crate::state::{Error, SystemState};

verus! {

/// Number of LEDs on the board.
pub const DEFAULT_NUM_LEDS: usize = 1;

/// Blink period of a warning, in milliseconds.
pub const DEFAULT_BLINK_PERIOD_MS: u64 = 600;

/// Blink period of an error, in milliseconds.
pub const ERROR_BLINK_PERIOD_MS: u64 = 350;

/// Blink period after a response went out, in milliseconds.
pub const SUCCESS_BLINK_PERIOD_MS: u64 = 100;

/// Blink period while the handshake is awaited, in milliseconds.
pub const HANDSHAKE_BLINK_PERIOD_MS: u64 = 700;

/// Pulse period while a command is handled, in milliseconds.
pub const COMMUNICATION_PULSE_PERIOD_MS: u64 = 800;

/// How long an error pattern stays, in microseconds.
pub const ERROR_HOLD_MICROS: u64 = 800_000;

/// How long a success pattern stays, in microseconds.
pub const SUCCESS_HOLD_MICROS: u64 = 400_000;

/// How long a warning pattern stays, in microseconds.
pub const WARNING_HOLD_MICROS: u64 = 500_000;

/// How long a read may block before the indicator is looked after, in
/// microseconds.
pub const STATUS_LED_POLL_INTERVAL_MICROS: u64 = 100_000;

/// The latest instant, in microseconds, at which a hold or a deadline can
/// still be scheduled without leaving the range of `u64`: more than half a
/// million years after the clock has started.
pub const MAX_INSTANT_MICROS: u64 = 0xFFFF_FFFF_FF00_0000;

/// Number of brightness steps on the way up in a pulse.
pub const PULSE_STEPS: u8 = 16;

/// The meanings the indicator can show.
#[derive(Clone, Copy, Debug, Eq, PartialEq, Structural)]
pub enum StatusColours {
    Error,
    Warning,
    Communicating,
    Success,
    Idle,
}

/// Intensities of the three channels of one LED.
#[derive(Clone, Copy, Debug, Eq, PartialEq, Structural)]
pub struct Rgb {
    pub r: u8,
    pub g: u8,
    pub b: u8,
}

impl StatusColours {
    /// The channel intensities of this colour at full brightness.
    pub open spec fn rgb(self) -> Rgb {
        match self {
            StatusColours::Error => Rgb { r: 0, g: 150, b: 0 },
            StatusColours::Warning => Rgb { r: 80, g: 120, b: 0 },
            StatusColours::Communicating => Rgb { r: 0, g: 40, b: 80 },
            StatusColours::Success => Rgb { r: 120, g: 0, b: 0 },
            StatusColours::Idle => Rgb { r: 0, g: 0, b: 60 },
        }
    }

    /// The channel intensities of this colour at full brightness.
    pub fn as_rgb(&self) -> (rgb: Rgb)
        ensures
            rgb == self.rgb(),
    {
        match self {
            StatusColours::Error => Rgb { r: 0, g: 150, b: 0 },
            StatusColours::Warning => Rgb { r: 80, g: 120, b: 0 },
            StatusColours::Communicating => Rgb { r: 0, g: 40, b: 80 },
            StatusColours::Success => Rgb { r: 120, g: 0, b: 0 },
            StatusColours::Idle => Rgb { r: 0, g: 0, b: 60 },
        }
    }
}

/// What the indicator does with a colour.
#[derive(Clone, Copy, Debug, Eq, PartialEq, Structural)]
pub enum StatusPattern {
    Solid(StatusColours),
    Blink { colour: StatusColours, period_ms: u64 },
    Pulse { colour: StatusColours, period_ms: u64 },
}

/// A pattern that stays until an instant whatever the state does meanwhile.
#[derive(Clone, Copy, Debug, Eq, PartialEq, Structural)]
pub struct LatchedPattern {
    pub pattern: StatusPattern,
    pub until: u64,
}

/// The pattern that belongs to a state, and for how long it is held once
/// shown.
pub open spec fn pattern_of(state: SystemState) -> (StatusPattern, Option<u64>) {
    match state {
        SystemState::Init => (StatusPattern::Solid(StatusColours::Idle), None),
        SystemState::WaitForHandshake => (
            StatusPattern::Blink {
                colour: StatusColours::Warning,
                period_ms: HANDSHAKE_BLINK_PERIOD_MS,
            },
            None,
        ),
        SystemState::WaitForMessage => (StatusPattern::Solid(StatusColours::Idle), None),
        SystemState::ParseCommand | SystemState::ExecuteAction => (
            StatusPattern::Pulse {
                colour: StatusColours::Communicating,
                period_ms: COMMUNICATION_PULSE_PERIOD_MS,
            },
            None,
        ),
        SystemState::SendResponse => (
            StatusPattern::Blink {
                colour: StatusColours::Success,
                period_ms: SUCCESS_BLINK_PERIOD_MS,
            },
            Some(SUCCESS_HOLD_MICROS),
        ),
        SystemState::Error(Error::Timeout) => (
            StatusPattern::Blink {
                colour: StatusColours::Warning,
                period_ms: DEFAULT_BLINK_PERIOD_MS,
            },
            Some(WARNING_HOLD_MICROS),
        ),
        SystemState::Error(_) => (
            StatusPattern::Blink { colour: StatusColours::Error, period_ms: ERROR_BLINK_PERIOD_MS },
            Some(ERROR_HOLD_MICROS),
        ),
    }
}

/// The pattern that belongs to `state`, and its hold duration if it has one.
pub fn state_pattern(state: SystemState) -> (shown: (StatusPattern, Option<u64>))
    ensures
        shown == pattern_of(state),
{
    match state {
        SystemState::Init => (StatusPattern::Solid(StatusColours::Idle), None),
        SystemState::WaitForHandshake => (
            StatusPattern::Blink {
                colour: StatusColours::Warning,
                period_ms: HANDSHAKE_BLINK_PERIOD_MS,
            },
            None,
        ),
        SystemState::WaitForMessage => (StatusPattern::Solid(StatusColours::Idle), None),
        SystemState::ParseCommand | SystemState::ExecuteAction => (
            StatusPattern::Pulse {
                colour: StatusColours::Communicating,
                period_ms: COMMUNICATION_PULSE_PERIOD_MS,
            },
            None,
        ),
        SystemState::SendResponse => (
            StatusPattern::Blink {
                colour: StatusColours::Success,
                period_ms: SUCCESS_BLINK_PERIOD_MS,
            },
            Some(SUCCESS_HOLD_MICROS),
        ),
        SystemState::Error(err) => match err {
            Error::Timeout => (
                StatusPattern::Blink {
                    colour: StatusColours::Warning,
                    period_ms: DEFAULT_BLINK_PERIOD_MS,
                },
                Some(WARNING_HOLD_MICROS),
            ),
            _ => (
                StatusPattern::Blink {
                    colour: StatusColours::Error,
                    period_ms: ERROR_BLINK_PERIOD_MS,
                },
                Some(ERROR_HOLD_MICROS),
            ),
        },
    }
}

/// What has been shown, what is being held, and what waits to be handed to
/// the indicator task.
///
/// `signal` is a one-slot mailbox: a newer pattern overwrites an older one
/// that nobody has taken.
#[derive(Clone, Copy, Debug, Eq, PartialEq, Structural)]
pub struct StatusTracker {
    pub last: Option<StatusPattern>,
    pub latched: Option<LatchedPattern>,
    pub signal: Option<StatusPattern>,
}

impl StatusTracker {
    /// The pattern that is in effect at `now` in `state`: a pattern with a
    /// hold duration if the state has one, else a held pattern whose hold
    /// has not run out, else the state's own.
    pub open spec fn effective(self, state: SystemState, now: u64) -> StatusPattern {
        let (pattern, hold) = pattern_of(state);
        if hold is None && self.latched is Some && now < self.latched->Some_0.until {
            self.latched->Some_0.pattern
        } else {
            pattern
        }
    }

    /// The hold that is in force after a refresh at `now` in `state`.
    pub open spec fn latch_after(self, state: SystemState, now: u64) -> Option<LatchedPattern> {
        let (pattern, hold) = pattern_of(state);
        if hold is Some {
            if hold->Some_0 > 0 {
                Some(LatchedPattern { pattern, until: (now + hold->Some_0) as u64 })
            } else {
                None
            }
        } else if self.latched is Some && now < self.latched->Some_0.until {
            self.latched
        } else {
            None
        }
    }

    /// The tracker after a refresh at `now` in `state`. The effective
    /// pattern is put in the mailbox only when it differs from the last one
    /// shown.
    pub open spec fn refreshed(self, state: SystemState, now: u64) -> StatusTracker {
        let effective = self.effective(state, now);
        StatusTracker {
            last: Some(effective),
            latched: self.latch_after(state, now),
            signal: if self.last == Some(effective) {
                self.signal
            } else {
                Some(effective)
            },
        }
    }

    /// A tracker that has shown nothing and holds nothing.
    pub fn new() -> (tracker: Self)
        ensures
            tracker == (StatusTracker { last: None, latched: None, signal: None }),
    {
        StatusTracker { last: None, latched: None, signal: None }
    }

    /// Brings the tracker up to date with `state` at `now`.
    pub fn refresh(&mut self, state: SystemState, now: u64)
        requires
            now <= MAX_INSTANT_MICROS,
        ensures
            *final(self) == old(self).refreshed(state, now),
    {
        if let Some(latch) = self.latched {
            if now >= latch.until {
                self.latched = None;
            }
        }
        let (pattern, hold) = state_pattern(state);
        if let Some(duration) = hold {
            self.latched = Some(LatchedPattern { pattern, until: now + duration });
        }
        let effective = if let Some(latch) = self.latched {
            if now < latch.until {
                latch.pattern
            } else {
                self.latched = None;
                pattern
            }
        } else {
            pattern
        };
        if self.last != Some(effective) {
            self.signal = Some(effective);
            self.last = Some(effective);
        }
    }

    /// Empties the mailbox and returns what it held.
    pub fn take_signal(&mut self) -> (pattern: Option<StatusPattern>)
        ensures
            pattern == old(self).signal,
            *final(self) == (StatusTracker { signal: None, ..*old(self) }),
    {
        let pattern = self.signal;
        self.signal = None;
        pattern
    }
}

/// Brightness of step `step` of a pulse, from 0 at step 0 to 255 at the last
/// step; later steps stay at 255.
pub fn pulse_intensity(step: u8) -> (intensity: u8)
    ensures
        step < PULSE_STEPS ==> intensity == step * 17,
        step >= PULSE_STEPS ==> intensity == 255,
{
    let max: u8 = PULSE_STEPS - 1;
    let clamped: u8 = if step < max {
        step
    } else {
        max
    };
    assert(max == 15);
    let scaled: u16 = (clamped as u16 * 255) / (max as u16);
    scaled as u8
}

/// One channel at brightness `scale` out of 255, rounded down.
pub fn scale_channel(channel: u8, scale: u8) -> (scaled: u8)
    ensures
        scaled == (channel * scale) / 255,
        scaled <= channel,
{
    assert(channel * scale <= channel * 255) by (nonlinear_arith)
        requires
            0 <= channel,
            0 <= scale <= 255,
    ;
    assert(channel * scale <= 255 * 255) by (nonlinear_arith)
        requires
            0 <= channel <= 255,
            0 <= scale <= 255,
    ;
    let product: u16 = channel as u16 * scale as u16;
    (product / 255) as u8
}

/// A colour at brightness `scale` out of 255.
pub fn scale_rgb(rgb: Rgb, scale: u8) -> (scaled: Rgb)
    ensures
        scaled.r == (rgb.r * scale) / 255,
        scaled.g == (rgb.g * scale) / 255,
        scaled.b == (rgb.b * scale) / 255,
{
    Rgb {
        r: scale_channel(rgb.r, scale),
        g: scale_channel(rgb.g, scale),
        b: scale_channel(rgb.b, scale),
    }
}

/// The number of steps of one pulse: up through every brightness, and down
/// again without repeating the two ends.
pub open spec fn pulse_cycle() -> int {
    2 * PULSE_STEPS - 2
}

/// The brightness step shown at `phase` of a pulse.
pub fn pulse_step(phase: u32) -> (step: u8)
    ensures
        phase < PULSE_STEPS ==> step == phase,
        PULSE_STEPS <= phase < pulse_cycle() ==> step == pulse_cycle() - phase,
        phase >= pulse_cycle() ==> step == 0,
{
    let up_len: u32 = PULSE_STEPS as u32;
    if phase < up_len {
        phase as u8
    } else {
        let desc_phase: u32 = phase - up_len;
        let descending: u32 = if desc_phase <= up_len - 2 {
            up_len - 2 - desc_phase
        } else {
            0
        };
        descending as u8
    }
}

/// The phase that follows `phase` in a pulse.
pub fn next_phase(phase: u32) -> (next: u32)
    requires
        phase < u32::MAX,
    ensures
        next == (phase + 1) % pulse_cycle(),
{
    let up_len: u32 = PULSE_STEPS as u32;
    let cycle_steps: u32 = up_len + (up_len - 2);
    (phase + 1) % cycle_steps
}

/// A waiting time that is never zero: `micros`, or one microsecond.
pub fn nonzero_duration(micros: u64) -> (wait: u64)
    ensures
        wait == if micros == 0 { 1 } else { micros },
{
    if micros == 0 {
        1
    } else {
        micros
    }
}

/// How long each half of a blink lasts, in microseconds.
pub fn blink_half_period(period_ms: u64) -> (micros: u64)
    requires
        period_ms <= u64::MAX / 1000,
    ensures
        micros == if period_ms == 0 { 1 } else { period_ms * 500 },
{
    nonzero_duration(period_ms * 1000 / 2)
}

/// How long each step of a pulse lasts, in microseconds.
pub fn pulse_step_duration(period_ms: u64) -> (micros: u64)
    requires
        period_ms <= u64::MAX / 1000,
    ensures
        micros == if period_ms * 1000 < pulse_cycle() {
            1
        } else {
            period_ms * 1000 / pulse_cycle()
        },
{
    let cycle_steps: u64 = (PULSE_STEPS as u64) * 2 - 2;
    assert(cycle_steps == 30 && pulse_cycle() == 30);
    nonzero_duration(period_ms * 1000 / cycle_steps)
}

} // verus!
