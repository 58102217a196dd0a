//! Modular arithmetic over machine integers.

pub mod element;
pub mod u64_field;
