//! Web search: how it is set up, what is asked, and what is read from the
//! answers.

pub mod client;
pub mod laws;
pub mod perplexity;
pub mod response;
pub mod search;
pub mod types;
