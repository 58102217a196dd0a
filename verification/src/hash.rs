//! Hash functions.

pub mod md5;
