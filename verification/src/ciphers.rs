//! Block ciphers.

pub mod aes;
pub mod rc5;
