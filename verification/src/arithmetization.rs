//! Programs of arithmetic statements and their constraint systems.

pub mod r1cs;
pub mod text;
