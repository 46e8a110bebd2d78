//! Long-running missions: their data, the feature queue, the runner's
//! decisions, the catalog, and the tools that drive them.

pub mod discovery;
pub mod laws;
pub mod runner;
pub mod storage;
pub mod tools;
pub mod types;
