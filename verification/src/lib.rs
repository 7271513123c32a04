//! Serial command link between a host terminal and a microcontroller.
//!
//! The host sends a handshake phrase, then framed commands; the firmware
//! answers each command with one framed response or one framed fault
//! report. The transport is a byte stream without message boundaries.
//!
//! - [`transport`]: the envelope that makes a payload self-delimiting.
//! - [`protocol`]: the command layout and the firmware's decoder.
//! - [`host`]: the host's encoder of command lines, and its framing.
//! - [`buffers`]: the fixed-capacity buffers of the firmware.
//! - [`state`]: the connection state machine of the firmware, without I/O:
//!   it takes bytes and instants and answers with what its driver is to do.
//! - [`session`]: the machine under a driver whose writes always succeed.
//! - [`guarantees`]: what holds of the state machine in every state.
//! - [`handlers`]: what the commands do.
//! - [`usb_transport`]: framing of what goes out, packets, write retries.
//! - [`status_led`]: the status indicator's colours, patterns and timing.
//! - [`terminal`]: how the terminal shows messages and errors.
//! - [`bytes`]: comparisons of byte slices.

pub mod buffers;
pub mod bytes;
pub mod guarantees;
pub mod handlers;
pub mod host;
pub mod protocol;
pub mod session;
pub mod state;
pub mod status_led;
pub mod terminal;
pub mod transport;
pub mod usb_transport;
