//! Why a patch does not apply: the region of a file that comes closest to the
//! lines that were expected.

pub mod closest;
pub mod diagnose;
pub mod edits;
pub mod laws;
