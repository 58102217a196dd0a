//! The parameters of a Pedersen commitment scheme.

use vstd::prelude::*;
use vstd::arithmetic::power::pow;
use crate::bignum::Natural;
use crate::prime::prime::is_prime_outcome;
use crate::prime::prime::Prime;
use crate::random::random_below;
use crate::Commitment;

verus! {

/// The four numbers of a Pedersen commitment scheme.
pub struct Pedersen {
    p: Natural,
    q: Natural,
    g: Natural,
    h: Natural,
}

/// The parameters that a prime `p`, a generator `g` and an exponent give:
/// `q = 2 * p + 1` and `h = g ^ exponent mod q`.
pub open spec fn parameters_from(p: nat, g: nat, exponent: nat) -> (nat, nat, nat, nat) {
    let q = 2 * p + 1;
    (p, q, g, (pow(g as int, exponent) % (q as int)) as nat)
}

impl Pedersen {
    /// A scheme with the given parameters.
    pub fn new(p: Natural, q: Natural, g: Natural, h: Natural) -> (pedersen: Self)
        ensures
            pedersen.parameters() == (p@, q@, g@, h@),
    {
        Pedersen { p, q, g, h }
    }

    pub fn p(&self) -> (p: &Natural)
        ensures
            p@ == self.parameters().0,
    {
        &self.p
    }

    pub fn q(&self) -> (q: &Natural)
        ensures
            q@ == self.parameters().1,
    {
        &self.q
    }

    pub fn g(&self) -> (g: &Natural)
        ensures
            g@ == self.parameters().2,
    {
        &self.g
    }

    pub fn h(&self) -> (h: &Natural)
        ensures
            h@ == self.parameters().3,
    {
        &self.h
    }

    /// Sets the parameters that a prime and two drawn numbers give.
    pub fn setup_from_draws(&mut self, p: Natural, g: u64, exponent: u64)
        ensures
            final(self).parameters() == parameters_from(p@, g as nat, exponent as nat),
    {
        let q = p.times(&Natural::from_u64(2)).plus(&Natural::from_u64(1));
        let g = Natural::from_u64(g);
        let h = g.modpow(&Natural::from_u64(exponent), &q);
        self.p = p;
        self.q = q;
        self.g = g;
        self.h = h;
    }
}

impl Commitment for Pedersen {
    closed spec fn parameters(&self) -> (nat, nat, nat, nat) {
        (self.p@, self.q@, self.g@, self.h@)
    }

    /// Draws a prime `p` and, where `q = 2 * p + 1` fits in 64 bits, a
    /// generator and an exponent below `q`, and sets the parameters that they
    /// give. Where no prime was found or `q` does not fit, it changes nothing
    /// and returns `false`.
    fn setup(&mut self, _security: u64) -> (done: bool)
        ensures
            done ==> exists|p: nat, g: nat, exponent: nat|
                is_prime_outcome(p, 100, true) && 2 * p + 1 <= u64::MAX && g < 2 * p + 1 && exponent
                    < 2 * p + 1 && final(self).parameters() == #[trigger] parameters_from(
                    p,
                    g,
                    exponent,
                ),
            !done ==> *final(self) == *old(self),
    {
        let p = match Prime::random_prime() {
            Some(p) => p,
            None => return false,
        };
        let q = p.times(&Natural::from_u64(2)).plus(&Natural::from_u64(1));
        let bound: u64 = match q.to_u64() {
            Some(bound) => bound,
            None => return false,
        };
        let g: u64 = random_below(bound);
        let exponent: u64 = random_below(bound);
        self.setup_from_draws(p, g, exponent);
        true
    }

    fn setup_with_params(&mut self, p: Natural, q: Natural, g: Natural, h: Natural) {
        self.p = p;
        self.q = q;
        self.g = g;
        self.h = h;
    }

    /// Committing is not implemented: it yields no bytes.
    fn commit(&mut self, input: &[u8]) -> (commitment: Vec<u8>)
        ensures
            commitment@ == Seq::<u8>::empty(),
    {
        Vec::new()
    }

    /// Verifying is not implemented: it accepts everything.
    fn verify(&mut self, input: &[u8], commitment: &[u8]) -> (accepted: bool)
        ensures
            accepted,
    {
        true
    }
}

} // verus!
