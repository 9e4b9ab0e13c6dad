//! Resets a microcontroller and switches it into boot mode from a host that
//! drives its boot-select line and its reset line over GPIO.
//!
//! The host's GPIO controller has no open-drain mode, so one is simulated: a
//! line is either an output at level low or an input with the pull-up on, and
//! is never driven high.
//!
//! The library decides and records; it neither waits nor touches the
//! hardware. Whatever is to be done to the outside comes back as a list, of
//! register writes ([`pin::PinOp`]) or of writes and pauses
//! ([`sequencer::Action`]), for the caller to carry out in order.
//!
//! - [`level`] and [`mode`]: logic levels and pin modes, and their
//!   counterparts on the controller.
//! - [`pin`]: one open-drain line, from taking it over to giving it up.
//! - [`sequence`]: the timed sequences of a run and their schedule.
//! - [`sequencer`]: the two lines taken through a sequence.
//! - [`recipe`] and [`config`]: the command to run, and how it is chosen.
//! - [`cli`]: what the command line asks for.

pub mod cli;
pub mod config;
pub mod level;
pub mod mode;
pub mod pin;
pub mod recipe;
pub mod sequence;
pub mod sequencer;
