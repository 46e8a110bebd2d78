//! Workflows: what launches them, how their agents are admitted, settled and
//! replayed, and how their progress is shown.

pub mod agent;
pub mod host;
pub mod launch;
pub mod laws;
pub mod output;
pub mod progress;
pub mod replay;
