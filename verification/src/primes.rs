//! Number theory as methods of the numbers themselves.

pub mod prime;
