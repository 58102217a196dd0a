//! Commitment schemes.

pub mod pedersen;
