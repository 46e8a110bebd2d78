//! Agents of a native team: how their calls travel, and what their tools do.

pub mod laws;
pub mod tools;
pub mod user_message;
pub mod wire;
