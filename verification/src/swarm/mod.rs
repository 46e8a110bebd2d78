//! Swarms: many subagents on one kind of task, launched at a measured pace.

pub mod laws;
pub mod pacing;
pub mod plan;
pub mod render;
pub mod scheduler;
pub mod tool;
