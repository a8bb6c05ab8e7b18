//! Runtime core of a rotary-knob MIDI controller.
//!
//! A knob with a push button selects one of a few named parameters and adjusts it.
//! Every adjustment becomes a MIDI Control Change event that a USB MIDI link carries
//! to the host, and the same link answers the host's identity request.
//!
//! - [`rotary_encoder`] turns readings of the pulse counter into deltas and a
//!   bounded count.
//! - [`state`] holds the parameters and the selection, and applies deltas and button
//!   presses to them.
//! - [`queue`] is the bounded queue of events between the parameters and the link.
//! - [`packet`] is the USB-MIDI packet format.
//! - [`sysex`] reassembles inbound SysEx messages, and [`midi`] answers them and
//!   prepares what goes out.
//! - [`display`] holds the arithmetic that a renderer sizes its shapes with.
//!
//! Nothing here waits, sleeps or touches hardware. The caller polls the counter,
//! drives the link and shares the objects between its tasks.

pub mod display;
pub mod midi;
pub mod packet;
pub mod queue;
pub mod rotary_encoder;
pub mod state;
pub mod sysex;
