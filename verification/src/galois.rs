//! The field GF(2^8) with reduction polynomial x^8 + x^4 + x^3 + x + 1.

use vstd::prelude::*;

verus! {

/// Multiplication by x: a left shift, reduced by the field polynomial when the
/// degree-7 coefficient was set.
pub open spec fn xtime(a: u8) -> u8 {
    if a & 0x80 != 0 {
        (a << 1) ^ 0x1B
    } else {
        a << 1
    }
}

/// The term that bit 0 of `b` contributes to a product with `a`.
pub open spec fn low_term(a: u8, b: u8) -> u8 {
    if b & 1 != 0 {
        a
    } else {
        0
    }
}

/// The sum (XOR) of `a * x^k` over the set bits `k < n` of `b`.
pub open spec fn gf_mul_bits(a: u8, b: u8, n: nat) -> u8
    decreases n,
{
    if n == 0 {
        0
    } else {
        low_term(a, b) ^ gf_mul_bits(xtime(a), b >> 1, (n - 1) as nat)
    }
}

/// The product of `a` and `b` in GF(2^8).
pub open spec fn gf_mul(a: u8, b: u8) -> u8 {
    gf_mul_bits(a, b, 8)
}

/// One step of the shift-and-add loop leaves the pending product unchanged.
pub proof fn lemma_unfold_step(p: u8, a: u8, b: u8, n: nat)
    requires
        n > 0,
    ensures
        p ^ gf_mul_bits(a, b, n) == (p ^ low_term(a, b)) ^ gf_mul_bits(
            xtime(a),
            b >> 1,
            (n - 1) as nat,
        ),
        (p ^ 0u8) == p,
{
    let t = low_term(a, b);
    let rest = gf_mul_bits(xtime(a), b >> 1, (n - 1) as nat);
    assert(p ^ (t ^ rest) == (p ^ t) ^ rest) by (bit_vector);
    assert(p ^ 0u8 == p) by (bit_vector);
}

/// The product written out term by term.
pub open spec fn gf_mul_flat(a: u8, b: u8) -> u8 {
    let a1 = xtime(a);
    let a2 = xtime(a1);
    let a3 = xtime(a2);
    let a4 = xtime(a3);
    let a5 = xtime(a4);
    let a6 = xtime(a5);
    let a7 = xtime(a6);
    let t0 = low_term(a, b);
    let t1 = low_term(a1, b >> 1);
    let t2 = low_term(a2, b >> 2);
    let t3 = low_term(a3, b >> 3);
    let t4 = low_term(a4, b >> 4);
    let t5 = low_term(a5, b >> 5);
    let t6 = low_term(a6, b >> 6);
    let t7 = low_term(a7, b >> 7);
    t0 ^ t1 ^ t2 ^ t3 ^ t4 ^ t5 ^ t6 ^ t7
}

/// The recursive sum and the written-out sum are the same byte.
pub proof fn lemma_gf_mul_is_flat(a: u8, b: u8)
    ensures
        gf_mul(a, b) == gf_mul_flat(a, b),
{
    let a1 = xtime(a);
    let a2 = xtime(a1);
    let a3 = xtime(a2);
    let a4 = xtime(a3);
    let a5 = xtime(a4);
    let a6 = xtime(a5);
    let a7 = xtime(a6);
    let t0 = low_term(a, b);
    let t1 = low_term(a1, b >> 1);
    let t2 = low_term(a2, b >> 2);
    let t3 = low_term(a3, b >> 3);
    let t4 = low_term(a4, b >> 4);
    let t5 = low_term(a5, b >> 5);
    let t6 = low_term(a6, b >> 6);
    let t7 = low_term(a7, b >> 7);
    assert(b >> 1 >> 1 == b >> 2 && b >> 2 >> 1 == b >> 3 && b >> 3 >> 1 == b >> 4 && b >> 4 >> 1
        == b >> 5 && b >> 5 >> 1 == b >> 6 && b >> 6 >> 1 == b >> 7) by (bit_vector);
    assert({
        let r7 = t7 ^ 0u8;
        let r6 = t6 ^ r7;
        let r5 = t5 ^ r6;
        let r4 = t4 ^ r5;
        let r3 = t3 ^ r4;
        let r2 = t2 ^ r3;
        let r1 = t1 ^ r2;
        t0 ^ r1 == t0 ^ t1 ^ t2 ^ t3 ^ t4 ^ t5 ^ t6 ^ t7
    }) by (bit_vector);
    reveal_with_fuel(gf_mul_bits, 9);
}

/// The written-out product does not depend on the order of its factors.
#[verifier::rlimit(100)]
proof fn lemma_flat_commutative(a: u8, b: u8)
    by (bit_vector)
    ensures
        gf_mul_flat(a, b) == gf_mul_flat(b, a),
{
}

/// The written-out products with zero, one, two and three.
proof fn lemma_flat_small(a: u8)
    by (bit_vector)
    ensures
        gf_mul_flat(a, 0) == 0,
        gf_mul_flat(a, 1) == a,
        gf_mul_flat(a, 2) == xtime(a),
        gf_mul_flat(a, 3) == xtime(a) ^ a,
{
}

/// The written-out product distributes over XOR.
proof fn lemma_flat_distributes(a: u8, b: u8, c: u8)
    by (bit_vector)
    ensures
        gf_mul_flat(c, a ^ b) == gf_mul_flat(c, a) ^ gf_mul_flat(c, b),
{
}

/// Multiplication distributes over addition, which in GF(2^8) is XOR.
pub proof fn lemma_gf_mul_distributes(a: u8, b: u8, c: u8)
    ensures
        gf_mul(c, a ^ b) == gf_mul(c, a) ^ gf_mul(c, b),
{
    lemma_gf_mul_is_flat(c, a ^ b);
    lemma_gf_mul_is_flat(c, a);
    lemma_gf_mul_is_flat(c, b);
    lemma_flat_distributes(a, b, c);
}

/// Multiplication in GF(2^8) does not depend on the order of its factors.
pub proof fn lemma_gf_mul_commutative(a: u8, b: u8)
    ensures
        gf_mul(a, b) == gf_mul(b, a),
{
    lemma_gf_mul_is_flat(a, b);
    lemma_gf_mul_is_flat(b, a);
    lemma_flat_commutative(a, b);
}

/// Zero annihilates: a product with a zero factor is zero.
pub proof fn lemma_gf_mul_zero(a: u8)
    ensures
        gf_mul(a, 0) == 0,
        gf_mul(0, a) == 0,
{
    lemma_gf_mul_is_flat(a, 0);
    lemma_flat_small(a);
    lemma_gf_mul_commutative(a, 0);
}

/// One is the unit of the field; two multiplies by x; three by x + 1.
pub proof fn lemma_gf_mul_small_factors(a: u8)
    ensures
        gf_mul(1, a) == a,
        gf_mul(2, a) == xtime(a),
        gf_mul(3, a) == xtime(a) ^ a,
{
    lemma_gf_mul_is_flat(a, 1);
    lemma_gf_mul_is_flat(a, 2);
    lemma_gf_mul_is_flat(a, 3);
    lemma_flat_small(a);
    lemma_gf_mul_commutative(a, 1);
    lemma_gf_mul_commutative(a, 2);
    lemma_gf_mul_commutative(a, 3);
}

} // verus!
