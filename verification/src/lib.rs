//! Core of a desktop session launcher: building the command that runs inside
//! a pseudo-terminal, encoding its byte output for a text transport, keeping
//! the table of live sessions, and sequencing the events a session emits.

pub mod codec;
pub mod command;
pub mod errors;
pub mod manager;
pub mod profiles;
pub mod pump;
pub mod registry;
