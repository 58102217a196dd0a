//! Building blocks for symmetric ciphers, hashing and modular arithmetic,
//! each stated against a mathematical model and proved to meet it.

use vstd::prelude::*;

pub mod arithmetization;
pub mod bignum;
pub mod ciphers;
pub mod commitments;
pub mod fields;
pub mod galois;
pub mod hash;
pub mod pk;
pub mod polynomial;
pub mod prime;
pub mod primes;
pub mod random;

verus! {

/// A fixed-size input of the wrong size: the one way in which a caller can
/// misuse a block cipher.
#[derive(Clone, Copy, Debug, PartialEq, Eq, Structural)]
pub enum ContractViolation {
    /// The key does not have the length that the cipher is defined for.
    KeyLength,
    /// The block does not have the length that the cipher is defined for.
    BlockLength,
}

/// A cipher that maps byte strings to byte strings under key material that
/// its use leaves unchanged.
pub trait Cipher: Sized {
    /// The inputs on which `encrypt` is defined.
    spec fn encrypt_accepts(&self, input: Seq<u8>) -> bool;

    /// What `encrypt` makes of an input.
    spec fn encrypted(&self, input: Seq<u8>) -> Seq<u8>;

    /// The inputs on which `decrypt` is defined.
    spec fn decrypt_accepts(&self, input: Seq<u8>) -> bool;

    /// What `decrypt` makes of an input.
    spec fn decrypted(&self, input: Seq<u8>) -> Seq<u8>;

    /// Encrypts an input that the cipher accepts.
    fn encrypt(&mut self, input: &[u8]) -> (output: Vec<u8>)
        requires
            old(self).encrypt_accepts(input@),
        ensures
            output@ == old(self).encrypted(input@),
            *final(self) == *old(self),
    ;

    /// Decrypts an input that the cipher accepts.
    fn decrypt(&mut self, input: &[u8]) -> (output: Vec<u8>)
        requires
            old(self).decrypt_accepts(input@),
        ensures
            output@ == old(self).decrypted(input@),
            *final(self) == *old(self),
    ;
}

/// A commitment scheme over four numbers: two moduli `p` and `q` and two
/// generators `g` and `h`.
pub trait Commitment: Sized {
    /// The parameters `(p, q, g, h)` of the scheme.
    spec fn parameters(&self) -> (nat, nat, nat, nat);

    /// Chooses parameters at random, and tells whether it did.
    fn setup(&mut self, security: u64) -> (done: bool)
        ensures
            !done ==> *final(self) == *old(self),
    ;

    /// Sets the parameters.
    fn setup_with_params(
        &mut self,
        p: bignum::Natural,
        q: bignum::Natural,
        g: bignum::Natural,
        h: bignum::Natural,
    )
        ensures
            final(self).parameters() == (p@, q@, g@, h@),
    ;

    /// The commitment to an input.
    fn commit(&mut self, input: &[u8]) -> (commitment: Vec<u8>)
        ensures
            final(self).parameters() == old(self).parameters(),
    ;

    /// Whether a commitment is one to the input.
    fn verify(&mut self, input: &[u8], commitment: &[u8]) -> (accepted: bool)
        ensures
            final(self).parameters() == old(self).parameters(),
    ;
}

/// Arithmetic on the values of a base type, as a field or a ring of residues
/// offers it.
pub trait Field {
    type BaseType: Clone;

    /// Whether the parameters of the field allow any arithmetic.
    spec fn usable() -> bool;

    /// What `add` returns.
    spec fn add_spec(a: Self::BaseType, b: Self::BaseType) -> Self::BaseType;

    /// The operands that `sub` is defined on.
    spec fn sub_accepts(a: Self::BaseType, b: Self::BaseType) -> bool;

    /// What `sub` returns.
    spec fn sub_spec(a: Self::BaseType, b: Self::BaseType) -> Self::BaseType;

    /// What `mul` returns.
    spec fn mul_spec(a: Self::BaseType, b: Self::BaseType) -> Self::BaseType;

    /// What `pow` returns.
    spec fn pow_spec(a: Self::BaseType, b: Self::BaseType) -> Self::BaseType;

    /// The operands that `neg` is defined on.
    spec fn neg_accepts(a: Self::BaseType) -> bool;

    /// What `neg` returns.
    spec fn neg_spec(a: Self::BaseType) -> Self::BaseType;

    /// What `from_u64` returns.
    spec fn from_u64_spec(a: u64) -> Self::BaseType;

    /// What `eq` returns.
    spec fn eq_spec(a: Self::BaseType, b: Self::BaseType) -> bool;

    /// The sum.
    fn add(a: &Self::BaseType, b: &Self::BaseType) -> (r: Self::BaseType)
        requires
            Self::usable(),
        ensures
            r == Self::add_spec(*a, *b),
    ;

    /// The difference.
    fn sub(a: &Self::BaseType, b: &Self::BaseType) -> (r: Self::BaseType)
        requires
            Self::usable(),
            Self::sub_accepts(*a, *b),
        ensures
            r == Self::sub_spec(*a, *b),
    ;

    /// The product.
    fn mul(a: &Self::BaseType, b: &Self::BaseType) -> (r: Self::BaseType)
        requires
            Self::usable(),
        ensures
            r == Self::mul_spec(*a, *b),
    ;

    /// What the field defines as `a` raised to `b`.
    fn pow(a: &Self::BaseType, b: &Self::BaseType) -> (r: Self::BaseType)
        requires
            Self::usable(),
        ensures
            r == Self::pow_spec(*a, *b),
    ;

    /// The negative.
    fn neg(a: &Self::BaseType) -> (r: Self::BaseType)
        requires
            Self::neg_accepts(*a),
        ensures
            r == Self::neg_spec(*a),
    ;

    /// The value that stands for an integer.
    fn from_u64(a: u64) -> (r: Self::BaseType)
        requires
            Self::usable(),
        ensures
            r == Self::from_u64_spec(a),
    ;

    /// Whether two values are the same element.
    fn eq(a: &Self::BaseType, b: &Self::BaseType) -> (r: bool)
        ensures
            r == Self::eq_spec(*a, *b),
    ;
}

/// A function from byte strings to digests.
pub trait HashFunction: Sized {
    /// The digest of an input.
    spec fn digest(&self, input: Seq<u8>) -> Seq<u8>;

    /// Computes the digest of an input.
    fn hash(&mut self, input: &[u8]) -> (output: Vec<u8>)
        ensures
            output@ == old(self).digest(input@),
            *final(self) == *old(self),
    ;
}

/// The round transformations of the Advanced Encryption Standard on a state
/// of four rows of four bytes.
pub trait AdvancedEncryptionStandard: Sized {
    /// The round-key words that the instance holds, four bytes each.
    spec fn round_key_table(&self) -> Seq<Seq<u8>>;

    /// Expands a key of four words into the 44 words of its round keys.
    fn key_schedule(key: [[u8; 4]; 4]) -> (round_keys: [[u8; 4]; 44])
        ensures
            ciphers::aes::words(round_keys) == ciphers::aes::key_schedule_spec(
                ciphers::aes::words(key),
            ),
    ;

    /// XORs round key `round` into the state and advances the round counter.
    fn add_round_key(&mut self, state: &mut [[u8; 4]; 4], round: &mut usize)
        requires
            *old(round) < 11,
        ensures
            ciphers::aes::words(*final(state)) == ciphers::aes::add_round_key_spec(
                ciphers::aes::words(*old(state)),
                old(self).round_key_table(),
                *old(round) as int,
            ),
            *final(round) == *old(round) + 1,
            *final(self) == *old(self),
    ;

    /// Diffuses each four-byte group of the state over GF(2^8).
    fn mix_columns(&mut self, state: &mut [[u8; 4]; 4])
        ensures
            ciphers::aes::words(*final(state)) == ciphers::aes::mix_columns_spec(
                ciphers::aes::words(*old(state)),
            ),
            *final(self) == *old(self),
    ;

    /// Replaces every byte of the state by its substitute.
    fn sub_bytes(&mut self, state: &mut [[u8; 4]; 4])
        ensures
            ciphers::aes::words(*final(state)) == ciphers::aes::sub_bytes_spec(
                ciphers::aes::words(*old(state)),
            ),
            *final(self) == *old(self),
    ;

    /// Moves the byte at row `(r + c) % 4`, column `c` to row `r`, column `c`.
    fn shift_rows(&mut self, state: &mut [[u8; 4]; 4])
        ensures
            ciphers::aes::words(*final(state)) == ciphers::aes::shift_rows_spec(
                ciphers::aes::words(*old(state)),
            ),
            *final(self) == *old(self),
    ;
}

/// Multiplies two bytes as elements of GF(2^8), the field of polynomials over
/// GF(2) modulo x^8 + x^4 + x^3 + x + 1.
pub fn galois_multiplication(a: u8, b: u8) -> (p: u8)
    ensures
        p == galois::gf_mul(a, b),
{
    let mut p: u8 = 0u8;
    let mut a: u8 = a;
    let mut b: u8 = b;
    let ghost a0 = a;
    let ghost b0 = b;
    let mut i: u8 = 0;
    proof {
        let whole = galois::gf_mul(a0, b0);
        assert(0u8 ^ whole == whole) by (bit_vector);
    }
    while i < 8
        invariant
            i <= 8,
            p ^ galois::gf_mul_bits(a, b, (8 - i) as nat) == galois::gf_mul(a0, b0),
        decreases 8 - i,
    {
        proof {
            galois::lemma_unfold_step(p, a, b, (8 - i) as nat);
        }
        if (b & 1) != 0 {
            p ^= a;
        }
        let bit_set: bool = (a & 0x80) != 0;
        a <<= 1;
        if bit_set {
            a ^= 0x1B;
        }
        b >>= 1;
        i += 1;
    }
    proof {
        assert(p ^ 0u8 == p) by (bit_vector);
    }
    p
}

} // verus!
