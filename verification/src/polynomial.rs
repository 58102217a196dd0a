//! Polynomials through given points.

pub mod lagrange;
