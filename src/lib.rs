//! Turns keyboard events into the state of a virtual game controller and the
//! line-oriented commands that keep an emulator's view of it in step.
//!
//! A [`KeyHandler`] takes key events, keeps the set of keys held, and drives
//! a [`Controller`] through a checked [`Keymap`]. The controller queues one
//! [`Command`] per change; [`Command::to_line`] gives its line on the wire.
//! Stick axes are whole deflections in `[-1, 1]`; speed factors are given in
//! millionths and stick values on the wire in ten-millionths, so that every
//! value is exact.

pub mod config;
pub mod controller;
pub mod key_handler;
pub mod keycodes;
pub mod text;

pub use config::{is_configured, pad_settings, PAD_SECTION, PIPE_DEVICE};
pub use controller::{Command, Controller, Direction, Stick, StickKind, FACTOR_ONE};
pub use key_handler::KeyHandler;
pub use keycodes::{get_keycode, setup_keymap, Keymap, KeymapConfig, KeymapError, ModFactors};
pub use text::{decimal_text, same_text};
