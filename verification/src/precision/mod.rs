//! Numbers as binary digits and an exponent, rounded to the nearest after each
//! operation.

pub mod double;
pub mod single;
