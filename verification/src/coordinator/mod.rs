//! The subagent coordinator as a state machine: each event changes the state
//! and yields what the host has to do. Channels are named by numbers, and
//! times are in milliseconds.

pub mod cancel;
pub mod command;
pub mod deadlines;
pub mod laws;
pub mod lifecycle;
pub mod mailbox;
pub mod roster;
pub mod state;
pub mod types;
pub mod wake;
