//! Context windows of a session: their history, private notes, and the turn
//! from one window to the next.

pub mod history;
pub mod laws;
pub mod notes;
pub mod reply;
pub mod store;
pub mod tools;
