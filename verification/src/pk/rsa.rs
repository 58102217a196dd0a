//! RSA on numbers and on text, character by character.

use vstd::prelude::*;
use vstd::arithmetic::power::pow;
use vstd::string::StrSliceExecFns;
use crate::bignum::Natural;
use crate::prime::prime::is_prime_outcome;
use crate::prime::prime::mod_inv_spec;
use crate::prime::prime::Prime;

verus! {

/// `String::push`: the character is appended.
pub assume_specification[ String::push ](s: &mut String, ch: char)
    ensures
        final(s)@ == old(s)@.push(ch),
;

/// An RSA key: the public exponent, the private exponent and the modulus.
pub struct RSA {
    e: Natural,
    d: Natural,
    n: Natural,
}

/// The character that decryption makes of a number: the one whose code is
/// the low byte of the number.
pub open spec fn low_byte_char(v: int) -> char {
    ((v as u32) as u8) as char
}

impl RSA {
    /// The public exponent.
    pub closed spec fn public_exponent(&self) -> nat {
        self.e@
    }

    /// The private exponent.
    pub closed spec fn private_exponent(&self) -> nat {
        self.d@
    }

    /// The modulus.
    pub closed spec fn modulus(&self) -> nat {
        self.n@
    }

    /// The modulus of a key is not zero.
    #[verifier::type_invariant]
    pub closed spec fn well_formed(&self) -> bool {
        self.n@ > 0
    }

    /// What a number is encrypted to.
    pub open spec fn encrypted(&self, m: nat) -> nat {
        (pow(m as int, self.public_exponent()) % (self.modulus() as int)) as nat
    }

    /// What a number is decrypted to.
    pub open spec fn decrypted(&self, c: nat) -> nat {
        (pow(c as int, self.private_exponent()) % (self.modulus() as int)) as nat
    }

    /// Whether the key is the one that the primes `p`, `q` and the public
    /// exponent `e` give.
    pub open spec fn is_key_of(&self, p: nat, q: nat, e: nat) -> bool {
        &&& self.modulus() == p * q
        &&& self.public_exponent() == e
        &&& mod_inv_spec(e, ((p - 1) * (q - 1)) as nat) == Some(self.private_exponent())
    }

    /// A key from three random primes: two for the modulus and one as public
    /// exponent. It fails where a prime was not found, or where the exponent
    /// has no inverse.
    pub fn new() -> (result: Result<Self, &'static str>)
        ensures
            result.is_ok() ==> exists|p: nat, q: nat, e: nat|
                is_prime_outcome(p, 100, true) && is_prime_outcome(q, 100, true)
                    && is_prime_outcome(e, 100, true) && #[trigger] result.unwrap().is_key_of(
                    p,
                    q,
                    e,
                ),
            result matches Err(message) ==> message@ == "no prime was found"@ || message@
                == "e has no modular inverse"@,
    {
        let p = match Prime::random_prime() {
            Some(p) => p,
            None => return Err("no prime was found"),
        };
        let q = match Prime::random_prime() {
            Some(q) => q,
            None => return Err("no prime was found"),
        };
        let e = match Prime::random_prime() {
            Some(e) => e,
            None => return Err("no prime was found"),
        };
        Self::from_primes(&p, &q, e)
    }

    /// The key that two primes and a public exponent give: the product of the
    /// primes as modulus, and the inverse of the exponent modulo
    /// `(p - 1) * (q - 1)` as private exponent. It fails where the exponent
    /// has no such inverse.
    pub fn from_primes(p: &Natural, q: &Natural, e: Natural) -> (result: Result<
        Self,
        &'static str,
    >)
        requires
            p@ >= 1,
            q@ >= 1,
            e@ == 1 ==> p@ > 1 && q@ > 1,
        ensures
            result.is_ok() == mod_inv_spec(e@, ((p@ - 1) * (q@ - 1)) as nat).is_some(),
            result.is_ok() ==> result.unwrap().is_key_of(p@, q@, e@),
            result matches Err(message) ==> message@ == "e has no modular inverse"@,
    {
        let one = Natural::from_u64(1);
        let n: Natural = p.times(q);
        let fi = p.minus(&one).times(&q.minus(&one));
        assert(n@ > 0) by (nonlinear_arith)
            requires
                n@ == p@ * q@,
                p@ >= 1,
                q@ >= 1,
        ;
        assert(e@ == 1 ==> fi@ != 0) by (nonlinear_arith)
            requires
                fi@ == (p@ - 1) * (q@ - 1),
                e@ == 1 ==> p@ > 1 && q@ > 1,
        ;
        let d = match Prime::mod_inv(e.clone(), fi) {
            Some(d) => d,
            None => return Err("e has no modular inverse"),
        };
        Ok(Self { e, d, n })
    }

    /// Raises a number to the public exponent, modulo the modulus.
    pub fn encrypt(&self, m: &Natural) -> (c: Natural)
        ensures
            c@ == self.encrypted(m@),
    {
        proof {
            use_type_invariant(self);
        }
        m.modpow(&self.e, &self.n)
    }

    /// Raises a number to the private exponent, modulo the modulus.
    pub fn decrypt(&self, c: &Natural) -> (m: Natural)
        ensures
            m@ == self.decrypted(c@),
    {
        proof {
            use_type_invariant(self);
        }
        c.modpow(&self.d, &self.n)
    }

    /// Encrypts the code of each character of a text.
    pub fn encrypt_str(&self, s: &str) -> (v: Vec<Natural>)
        ensures
            v@.len() == s@.len(),
            forall|i: int| 0 <= i < s@.len() ==> (#[trigger] v@[i])@ == self.encrypted(s@[i] as nat),
    {
        let len: usize = s.unicode_len();
        let mut v: Vec<Natural> = Vec::new();
        let mut i: usize = 0;
        while i < len
            invariant
                len == s@.len(),
                i <= len,
                v@.len() == i,
                forall|j: int| 0 <= j < i ==> (#[trigger] v@[j])@ == self.encrypted(s@[j] as nat),
            decreases len - i,
        {
            let c: char = s.get_char(i);
            v.push(self.encrypt(&Natural::from_u64(c as u64)));
            i += 1;
        }
        v
    }

    /// Decrypts each number to the character of its low byte.
    pub fn decrypt_str(&self, v: &[Natural]) -> (s: String)
        requires
            forall|i: int| 0 <= i < v@.len() ==> self.decrypted((#[trigger] v@[i])@) <= u32::MAX,
        ensures
            s@.len() == v@.len(),
            forall|i: int|
                0 <= i < v@.len() ==> #[trigger] s@[i] == low_byte_char(
                    self.decrypted(v@[i]@) as int,
                ),
    {
        proof {
            use_type_invariant(self);
        }
        let mut s = String::new();
        let mut i: usize = 0;
        while i < v.len()
            invariant
                i <= v@.len(),
                self.n@ > 0,
                self.private_exponent() == self.d@,
                self.modulus() == self.n@,
                forall|j: int|
                    0 <= j < v@.len() ==> self.decrypted((#[trigger] v@[j])@) <= u32::MAX,
                s@.len() == i,
                forall|j: int|
                    0 <= j < i ==> #[trigger] s@[j] == low_byte_char(self.decrypted(v@[j]@) as int),
            decreases v@.len() - i,
        {
            let m = v[i].modpow(&self.d, &self.n);
            let code: u32 = m.to_u32().unwrap();
            let byte: u8 = #[verifier::truncate] (code as u8);
            s.push(byte as char);
            i += 1;
        }
        s
    }
}

} // verus!
