//! Memory of earlier work: what is searched for, and how it is told.

pub mod experience;
pub mod laws;
pub mod staleness;
pub mod types;
