//! A turn-based text-adventure interpreter.
//!
//! The crate turns one line of player input into a structured [`command::Command`]
//! (module [`parser`]), resolves that command against a small world graph of
//! rooms, doors, objects and characters (module [`command_handler`]), and
//! re-evaluates time-gated triggers once per turn (module [`update`]).
//! The host is expected to read input lines, print the returned messages, and
//! sample a monotonic clock; the interpreter itself only ever sees plain
//! strings and elapsed seconds.

#![verifier::loop_isolation(false)]

pub mod character;
pub mod command;
pub mod command_handler;
pub mod door;
pub mod entity;
pub mod game_state;
pub mod inventory;
pub mod parser;
pub mod player;
pub mod room;
pub mod update;
pub mod util;
pub mod world;
