//! Timer periods for MIDI keys, computed with 32-bit integer arithmetic only.
//!
//! A square wave at the pitch of a MIDI key is produced by reloading a
//! hardware timer every `period` ticks. [`midi_key_period`] computes that
//! period from the timer's tick frequency and the key number, using one
//! multiplication, one shift and one rounded division on `u32` values, so it
//! can run inside an interrupt handler on a device without floating point.
//!
//! The function has a domain: MIDI keys, and timer frequencies for which the
//! arithmetic stays within 32 bits. Verified callers prove that they are in
//! it; others ask [`is_valid_input`] first.

pub mod accuracy;
pub mod exp_frac;
pub mod laws;
pub mod period;
pub mod rounding;

pub use accuracy::ACCURATE_PERIOD;
pub use accuracy::ACCURATE_TIMER_FREQUENCY;
pub use period::is_valid_input;
pub use period::midi_key_period;
pub use period::MAX_KEY;
pub use period::MAX_TIMER_FREQUENCY;
