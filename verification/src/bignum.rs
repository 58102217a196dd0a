//! Numbers of any size, held as their bytes. The arithmetic on them is that
//! of the `num-bigint` crate: each operation below hands the bytes to it and
//! takes the bytes of the result back.

use vstd::prelude::*;
use vstd::arithmetic::power::pow;
use vstd::arithmetic::power2::pow2;
use vstd::std_specs::cmp::PartialEqSpecImpl;
use num_bigint::BigInt;
use num_bigint::BigUint;
use num_traits::ToPrimitive;
use num_traits::Zero;

verus! {

/// The number that a string of bytes stands for, most significant byte
/// first. Leading zero bytes do not change it.
pub open spec fn be_value(bytes: Seq<u8>) -> nat
    decreases bytes.len(),
{
    if bytes.len() == 0 {
        0
    } else {
        be_value(bytes.drop_last()) * 256 + bytes.last() as nat
    }
}

/// The integer that a string of bytes stands for in two's complement, most
/// significant byte first: the empty string stands for zero, and a string
/// whose first byte has its high bit set for a negative number.
pub open spec fn signed_be_value(bytes: Seq<u8>) -> int {
    if bytes.len() > 0 && bytes[0] >= 0x80 {
        be_value(bytes) - pow2(8 * bytes.len())
    } else {
        be_value(bytes) as int
    }
}

/// The quotient of a division that rounds towards zero.
pub open spec fn trunc_div(a: int, b: int) -> int {
    let q = (if a < 0 { -a } else { a }) / (if b < 0 { -b } else { b });
    if (a < 0) == (b < 0) {
        q
    } else {
        -q
    }
}

/// The remainder of a division that rounds towards zero: it has the sign of
/// the dividend.
pub open spec fn trunc_rem(a: int, b: int) -> int {
    let r = (if a < 0 { -a } else { a }) % (if b < 0 { -b } else { b });
    if a < 0 {
        -r
    } else {
        r
    }
}

/// A natural number, as big-endian bytes.
#[derive(Debug)]
pub struct Natural {
    pub bytes: Vec<u8>,
}

/// An integer, as big-endian bytes in two's complement.
#[derive(Debug)]
pub struct Integer {
    pub bytes: Vec<u8>,
}

impl View for Natural {
    type V = nat;

    open spec fn view(&self) -> nat {
        be_value(self.bytes@)
    }
}

impl View for Integer {
    type V = int;

    open spec fn view(&self) -> int {
        signed_be_value(self.bytes@)
    }
}

impl Clone for Natural {
    fn clone(&self) -> (copy: Self)
        ensures
            copy@ == self@,
            copy.bytes@ == self.bytes@,
    {
        Natural { bytes: self.bytes.clone() }
    }
}

impl Clone for Integer {
    fn clone(&self) -> (copy: Self)
        ensures
            copy@ == self@,
    {
        Integer { bytes: self.bytes.clone() }
    }
}

impl PartialEq for Natural {
    fn eq(&self, other: &Natural) -> (r: bool) {
        self.same(other)
    }
}

impl PartialEqSpecImpl for Natural {
    open spec fn obeys_eq_spec() -> bool {
        true
    }

    /// Two naturals are equal when they are the same number, whatever their
    /// bytes.
    open spec fn eq_spec(&self, other: &Natural) -> bool {
        self@ == other@
    }
}

impl Natural {
    /// The number that the bytes stand for, most significant byte first.
    pub fn from_bytes_be(bytes: &[u8]) -> (n: Natural)
        ensures
            n@ == be_value(bytes@),
            n.bytes@ == bytes@,
    {
        let mut copy: Vec<u8> = Vec::new();
        let mut i: usize = 0;
        while i < bytes.len()
            invariant
                i <= bytes@.len(),
                copy@ == bytes@.subrange(0, i as int),
            decreases bytes@.len() - i,
        {
            copy.push(bytes[i]);
            i += 1;
        }
        assert(bytes@.subrange(0, i as int) =~= bytes@);
        Natural { bytes: copy }
    }

    /// `BigUint::from` on a `u64`: the same number.
    #[verifier::external_body]
    pub(crate) fn from_u64(x: u64) -> (n: Natural)
        ensures
            n@ == x,
    {
        Natural { bytes: BigUint::from(x).to_bytes_be() }
    }

    /// `BigUint`'s `+`: the sum.
    #[verifier::external_body]
    pub(crate) fn plus(&self, other: &Natural) -> (sum: Natural)
        ensures
            sum@ == self@ + other@,
    {
        let sum = BigUint::from_bytes_be(&self.bytes) + BigUint::from_bytes_be(&other.bytes);
        Natural { bytes: sum.to_bytes_be() }
    }

    /// `BigUint`'s `-`: the difference. It panics when the subtrahend is the
    /// larger, which `requires` rules out.
    #[verifier::external_body]
    pub(crate) fn minus(&self, other: &Natural) -> (difference: Natural)
        requires
            other@ <= self@,
        ensures
            difference@ == self@ - other@,
    {
        let difference = BigUint::from_bytes_be(&self.bytes) - BigUint::from_bytes_be(
            &other.bytes,
        );
        Natural { bytes: difference.to_bytes_be() }
    }

    /// `BigUint`'s `*`: the product.
    #[verifier::external_body]
    pub(crate) fn times(&self, other: &Natural) -> (product: Natural)
        ensures
            product@ == self@ * other@,
    {
        let product = BigUint::from_bytes_be(&self.bytes) * BigUint::from_bytes_be(&other.bytes);
        Natural { bytes: product.to_bytes_be() }
    }

    /// `BigUint`'s `%`: the remainder. It panics on a zero divisor, which
    /// `requires` rules out.
    #[verifier::external_body]
    pub(crate) fn modulo(&self, other: &Natural) -> (remainder: Natural)
        requires
            other@ != 0,
        ensures
            remainder@ == self@ % other@,
    {
        let remainder = BigUint::from_bytes_be(&self.bytes) % BigUint::from_bytes_be(
            &other.bytes,
        );
        Natural { bytes: remainder.to_bytes_be() }
    }

    /// `BigUint`'s `>>`: the number without its lowest bits.
    #[verifier::external_body]
    pub(crate) fn shifted_right(&self, bits: usize) -> (shifted: Natural)
        ensures
            shifted@ == self@ / pow2(bits as nat),
    {
        let shifted = BigUint::from_bytes_be(&self.bytes) >> bits;
        Natural { bytes: shifted.to_bytes_be() }
    }

    /// `BigUint::modpow`: the power, reduced. It panics on a zero modulus,
    /// which `requires` rules out.
    #[verifier::external_body]
    pub(crate) fn modpow(&self, exponent: &Natural, modulus: &Natural) -> (power: Natural)
        requires
            modulus@ != 0,
        ensures
            power@ == pow(self@ as int, exponent@) % (modulus@ as int),
    {
        let base = BigUint::from_bytes_be(&self.bytes);
        let power = base.modpow(
            &BigUint::from_bytes_be(&exponent.bytes),
            &BigUint::from_bytes_be(&modulus.bytes),
        );
        Natural { bytes: power.to_bytes_be() }
    }

    /// `BigUint`'s `==`: whether the two are the same number.
    #[verifier::external_body]
    pub(crate) fn same(&self, other: &Natural) -> (r: bool)
        ensures
            r == (self@ == other@),
    {
        BigUint::from_bytes_be(&self.bytes) == BigUint::from_bytes_be(&other.bytes)
    }

    /// `ToPrimitive::to_u64` of `BigUint`: the number, where 64 bits hold it.
    #[verifier::external_body]
    pub(crate) fn to_u64(&self) -> (r: Option<u64>)
        ensures
            self@ <= u64::MAX ==> r == Some(self@ as u64),
            self@ > u64::MAX ==> r.is_none(),
    {
        BigUint::from_bytes_be(&self.bytes).to_u64()
    }

    /// `ToPrimitive::to_u32` of `BigUint`: the number, where 32 bits hold it.
    #[verifier::external_body]
    pub(crate) fn to_u32(&self) -> (r: Option<u32>)
        ensures
            self@ <= u32::MAX ==> r == Some(self@ as u32),
            self@ > u32::MAX ==> r.is_none(),
    {
        BigUint::from_bytes_be(&self.bytes).to_u32()
    }
}

impl Integer {
    /// The integer zero.
    pub fn zero() -> (z: Integer)
        ensures
            z@ == 0,
    {
        Integer { bytes: Vec::new() }
    }

    /// The integer one.
    pub fn one() -> (o: Integer)
        ensures
            o@ == 1,
    {
        let mut bytes: Vec<u8> = Vec::new();
        bytes.push(1u8);
        assert(be_value(bytes@) == 1) by {
            reveal_with_fuel(be_value, 2);
        }
        Integer { bytes }
    }

    /// A natural number as an integer: its bytes behind a zero byte, which
    /// keeps the sign.
    pub fn from_natural(n: Natural) -> (i: Integer)
        ensures
            i@ == n@,
    {
        let ghost magnitude = n.bytes@;
        let mut n = n;
        let mut bytes: Vec<u8> = Vec::new();
        bytes.push(0u8);
        bytes.append(&mut n.bytes);
        proof {
            lemma_leading_zero(magnitude);
            assert(bytes@ =~= seq![0u8] + magnitude);
        }
        Integer { bytes }
    }

    /// `BigInt::to_biguint`: the integer as a natural number, unless it is
    /// negative.
    #[verifier::external_body]
    pub(crate) fn to_natural(&self) -> (r: Option<Natural>)
        ensures
            r.is_some() == (self@ >= 0),
            r.is_some() ==> r.unwrap()@ == self@,
    {
        let n = BigInt::from_signed_bytes_be(&self.bytes).to_biguint()?;
        Some(Natural { bytes: n.to_bytes_be() })
    }

    /// `Zero::is_zero` of `BigInt`.
    #[verifier::external_body]
    pub(crate) fn is_zero(&self) -> (r: bool)
        ensures
            r == (self@ == 0),
    {
        BigInt::from_signed_bytes_be(&self.bytes).is_zero()
    }

    /// `BigInt`'s `==`.
    #[verifier::external_body]
    pub(crate) fn same(&self, other: &Integer) -> (r: bool)
        ensures
            r == (self@ == other@),
    {
        BigInt::from_signed_bytes_be(&self.bytes) == BigInt::from_signed_bytes_be(&other.bytes)
    }

    /// `BigInt`'s `+`: the sum.
    #[verifier::external_body]
    pub(crate) fn plus(&self, other: &Integer) -> (sum: Integer)
        ensures
            sum@ == self@ + other@,
    {
        let a = BigInt::from_signed_bytes_be(&self.bytes);
        let b = BigInt::from_signed_bytes_be(&other.bytes);
        Integer { bytes: (a + b).to_signed_bytes_be() }
    }

    /// `BigInt`'s `-`: the difference.
    #[verifier::external_body]
    pub(crate) fn minus(&self, other: &Integer) -> (difference: Integer)
        ensures
            difference@ == self@ - other@,
    {
        let a = BigInt::from_signed_bytes_be(&self.bytes);
        let b = BigInt::from_signed_bytes_be(&other.bytes);
        Integer { bytes: (a - b).to_signed_bytes_be() }
    }

    /// `BigInt`'s `*`: the product.
    #[verifier::external_body]
    pub(crate) fn times(&self, other: &Integer) -> (product: Integer)
        ensures
            product@ == self@ * other@,
    {
        let a = BigInt::from_signed_bytes_be(&self.bytes);
        let b = BigInt::from_signed_bytes_be(&other.bytes);
        Integer { bytes: (a * b).to_signed_bytes_be() }
    }

    /// `BigInt`'s `/`: the quotient, rounded towards zero. It panics on a zero
    /// divisor, which `requires` rules out.
    #[verifier::external_body]
    pub(crate) fn divided_by(&self, other: &Integer) -> (quotient: Integer)
        requires
            other@ != 0,
        ensures
            quotient@ == trunc_div(self@, other@),
    {
        let a = BigInt::from_signed_bytes_be(&self.bytes);
        let b = BigInt::from_signed_bytes_be(&other.bytes);
        Integer { bytes: (a / b).to_signed_bytes_be() }
    }

    /// `BigInt`'s `%`: the remainder of the division that rounds towards
    /// zero. It panics on a zero divisor, which `requires` rules out.
    #[verifier::external_body]
    pub(crate) fn modulo(&self, other: &Integer) -> (remainder: Integer)
        requires
            other@ != 0,
        ensures
            remainder@ == trunc_rem(self@, other@),
    {
        let a = BigInt::from_signed_bytes_be(&self.bytes);
        let b = BigInt::from_signed_bytes_be(&other.bytes);
        Integer { bytes: (a % b).to_signed_bytes_be() }
    }
}

/// A zero byte in front does not change the number that bytes stand for.
pub proof fn lemma_leading_zero(bytes: Seq<u8>)
    ensures
        be_value(seq![0u8] + bytes) == be_value(bytes),
    decreases bytes.len(),
{
    let all = seq![0u8] + bytes;
    if bytes.len() == 0 {
        assert(all.drop_last() =~= Seq::<u8>::empty());
        reveal_with_fuel(be_value, 2);
    } else {
        lemma_leading_zero(bytes.drop_last());
        assert(all.drop_last() =~= seq![0u8] + bytes.drop_last());
    }
}

} // verus!
