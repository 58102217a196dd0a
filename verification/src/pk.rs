//! Public-key ciphers.

pub mod rsa;
