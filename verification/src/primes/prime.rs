//! The number theory of `crate::prime::prime` as methods of a natural number.

use vstd::prelude::*;
use crate::bignum::Integer;
use crate::bignum::Natural;
use crate::prime::prime::egcd_spec;
use crate::prime::prime::is_prime_outcome;
use crate::prime::prime::mod_inv_spec;

verus! {

/// Number theory as methods of a number.
pub trait Prime: Sized {
    /// The number that the value stands for.
    spec fn number(&self) -> nat;

    /// The extended Euclidean algorithm.
    fn egcd(a: Integer, b: Integer) -> (r: (Integer, Integer, Integer))
        ensures
            (r.0@, r.1@, r.2@) == egcd_spec(a@, b@),
    ;

    /// The inverse of the number modulo `other`, or `None` where the two have
    /// a common divisor other than one.
    fn mod_inv(&self, other: &Natural) -> (r: Option<Natural>)
        requires
            !(self.number() == 1 && other@ == 0),
        ensures
            r.is_some() == mod_inv_spec(self.number(), other@).is_some(),
            r.is_some() ==> r.unwrap()@ == mod_inv_spec(self.number(), other@).unwrap(),
    ;

    /// The Miller-Rabin test of the number with `k` rounds on random bases.
    fn is_prime(&self, k: usize) -> (r: bool)
        requires
            self.number() == 3 ==> k == 0,
        ensures
            is_prime_outcome(self.number(), k as nat, r),
    ;

    /// A number of 32 random bytes that passed the test with 100 rounds, if
    /// one was drawn.
    fn random_prime() -> (r: Option<Natural>)
        ensures
            r.is_some() ==> r.unwrap().bytes@.len() == 32 && r.unwrap()@ != 3 && is_prime_outcome(
                r.unwrap()@,
                100,
                true,
            ),
    ;
}

impl Prime for Natural {
    open spec fn number(&self) -> nat {
        self@
    }

    fn egcd(a: Integer, b: Integer) -> (r: (Integer, Integer, Integer)) {
        crate::prime::prime::Prime::egcd(a, b)
    }

    fn mod_inv(&self, other: &Natural) -> (r: Option<Natural>) {
        crate::prime::prime::Prime::mod_inv(self.clone(), other.clone())
    }

    fn is_prime(&self, k: usize) -> (r: bool) {
        crate::prime::prime::Prime::is_prime(self, k)
    }

    fn random_prime() -> (r: Option<Natural>) {
        crate::prime::prime::Prime::random_prime()
    }
}

} // verus!
