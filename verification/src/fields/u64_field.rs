//! Arithmetic modulo a 64-bit modulus, computed in 128 bits.

use vstd::prelude::*;
use crate::Field;

verus! {

/// The residues modulo `MODULUS`, held in 64 bits.
#[derive(Debug)]
pub struct U64Field<const MODULUS: u64>;

impl<const MODULUS: u64> Field for U64Field<MODULUS> {
    type BaseType = u64;

    /// Reduction needs a modulus that is not zero.
    open spec fn usable() -> bool {
        MODULUS != 0
    }

    open spec fn add_spec(a: u64, b: u64) -> u64 {
        ((a + b) % (MODULUS as int)) as u64
    }

    /// The difference is taken from `a + MODULUS`, which must reach `b`.
    open spec fn sub_accepts(a: u64, b: u64) -> bool {
        b <= a + MODULUS
    }

    open spec fn sub_spec(a: u64, b: u64) -> u64 {
        ((a + MODULUS - b) % (MODULUS as int)) as u64
    }

    open spec fn mul_spec(a: u64, b: u64) -> u64 {
        ((a * b) % (MODULUS as int)) as u64
    }

    /// The bitwise exclusive or of the operands, reduced.
    open spec fn pow_spec(a: u64, b: u64) -> u64 {
        ((a ^ b) % MODULUS) as u64
    }

    /// The negative is taken from the modulus, which must reach `a`.
    open spec fn neg_accepts(a: u64) -> bool {
        a <= MODULUS
    }

    /// The distance from `a` up to the modulus: the modulus itself for zero.
    open spec fn neg_spec(a: u64) -> u64 {
        (MODULUS - a) as u64
    }

    open spec fn from_u64_spec(a: u64) -> u64 {
        (a % MODULUS) as u64
    }

    open spec fn eq_spec(a: u64, b: u64) -> bool {
        a == b
    }

    fn add(a: &u64, b: &u64) -> (r: u64) {
        ((*a as u128 + *b as u128) % MODULUS as u128) as u64
    }

    fn sub(a: &u64, b: &u64) -> (r: u64) {
        (((*a as u128 + MODULUS as u128) - *b as u128) % MODULUS as u128) as u64
    }

    fn neg(a: &u64) -> (r: u64) {
        MODULUS - *a
    }

    fn mul(a: &u64, b: &u64) -> (r: u64) {
        assert((*a as u128) * (*b as u128) <= 0xffff_ffff_ffff_ffff * 0xffff_ffff_ffff_ffff)
            by (nonlinear_arith)
            requires
                *a <= 0xffff_ffff_ffff_ffff,
                *b <= 0xffff_ffff_ffff_ffff,
        ;
        ((*a as u128 * *b as u128) % MODULUS as u128) as u64
    }

    fn pow(a: &u64, b: &u64) -> (r: u64) {
        let x: u64 = *a ^ *b;
        x % MODULUS
    }

    fn from_u64(x: u64) -> (r: u64) {
        x % MODULUS
    }

    fn eq(a: &u64, b: &u64) -> (r: bool) {
        *a == *b
    }
}

} // verus!
