//! Number theory on numbers of any size.

pub mod prime;
