//! Greatest common divisors, modular inverses and a probabilistic test of
//! primality.

use vstd::prelude::*;
use vstd::arithmetic::div_mod::lemma_add_mod_noop;
use vstd::arithmetic::div_mod::lemma_fundamental_div_mod;
use vstd::arithmetic::div_mod::lemma_mod_multiples_vanish;
use vstd::arithmetic::div_mod::lemma_mul_mod_noop_general;
use vstd::arithmetic::div_mod::lemma_fundamental_div_mod_converse;
use vstd::arithmetic::div_mod::lemma_mod_add_multiples_vanish;
use vstd::arithmetic::div_mod::lemma_mod_self_0;
use vstd::arithmetic::div_mod::lemma_small_mod;
use vstd::arithmetic::power::lemma_square_is_pow2;
use vstd::arithmetic::power::pow;
use vstd::arithmetic::power2::lemma2_to64;
use vstd::arithmetic::power2::lemma_pow2_adds;
use vstd::arithmetic::power2::lemma_pow2_pos;
use vstd::arithmetic::power2::lemma_pow2_strictly_increases;
use vstd::arithmetic::power2::lemma_pow2_unfold;
use vstd::arithmetic::power2::pow2;
use crate::bignum::be_value;
use crate::bignum::trunc_div;
use crate::bignum::trunc_rem;
use crate::bignum::Integer;
use crate::bignum::Natural;
use crate::random::random_bytes;

verus! {

/// The absolute value of an integer.
pub open spec fn abs(a: int) -> nat {
    if a < 0 {
        (-a) as nat
    } else {
        a as nat
    }
}

/// What the extended Euclidean algorithm makes of `a` and `b`: a common
/// divisor `g` and coefficients `x`, `y` with `g == a * x + b * y`.
pub open spec fn egcd_spec(a: int, b: int) -> (int, int, int)
    decreases abs(a),
{
    if a == 0 {
        (b, 0, 1)
    } else {
        let r = egcd_spec(trunc_rem(b, a), a);
        (r.0, r.2 - trunc_div(b, a) * r.1, r.1)
    }
}

/// The representative in `[0, m)` of `x` modulo a positive `m`, as two
/// remainders of the division that rounds towards zero give it.
pub open spec fn normalized(x: int, m: int) -> int {
    trunc_rem(trunc_rem(x, m) + m, m)
}

/// The inverse of `a` modulo `m` that the extended Euclidean algorithm finds,
/// where it finds the common divisor one.
pub open spec fn mod_inv_spec(a: nat, m: nat) -> Option<nat> {
    let r = egcd_spec(a as int, m as int);
    if r.0 != 1 {
        None
    } else {
        Some(normalized(r.1, m as int) as nat)
    }
}

/// What is left of a number when every factor two is taken out.
pub open spec fn odd_part(m: nat) -> nat
    decreases m,
{
    if m == 0 || m % 2 == 1 {
        m
    } else {
        odd_part(m / 2)
    }
}

/// How many factors two a number has.
pub open spec fn twos(m: nat) -> nat
    decreases m,
{
    if m == 0 || m % 2 == 1 {
        0
    } else {
        1 + twos(m / 2)
    }
}

/// The base that a drawn number gives for a test of `n`: one of
/// `2, .., n - 3`.
pub open spec fn base_of(n: nat, draw: nat) -> nat {
    2 + draw % ((n - 4) as nat)
}

/// Whether squaring `x` modulo `n`, at most `steps` times, reaches `n - 1`
/// before it reaches one; with no step left, whether `x` is `n - 1`.
pub open spec fn squares_to_minus_one(x: nat, n: nat, steps: nat) -> bool
    decreases steps,
{
    if steps == 0 {
        x == n - 1
    } else {
        let y = ((x * x) % n) as nat;
        if y == 1 {
            false
        } else if y == n - 1 {
            true
        } else {
            squares_to_minus_one(y, n, (steps - 1) as nat)
        }
    }
}

/// Whether `n` passes one round of the Miller-Rabin test with exponent `d`,
/// `steps` squarings and the base that `draw` gives: the power of the base is
/// one or `n - 1`, or its squares reach `n - 1`.
pub open spec fn round_passes(n: nat, d: nat, steps: nat, draw: nat) -> bool {
    let x = (pow(base_of(n, draw) as int, d) % (n as int)) as nat;
    x == 1 || x == n - 1 || squares_to_minus_one(x, n, steps)
}

/// Whether an odd `n` passes a round for each of the draws, with the odd
/// part of `n - 1` as exponent.
pub open spec fn survives(n: nat, draws: Seq<Seq<u8>>) -> bool {
    forall|i: int|
        0 <= i < draws.len() ==> round_passes(
            n,
            odd_part((n - 1) as nat),
            (twos((n - 1) as nat) - 1) as nat,
            be_value(#[trigger] draws[i]),
        )
}

/// What the test may answer for `n` with `k` rounds. An even number is prime
/// only if it is two, and one is not prime. For any other odd number the
/// answer is that of `k` rounds on some draws of 32 bytes each.
pub open spec fn is_prime_outcome(n: nat, k: nat, r: bool) -> bool {
    if n % 2 == 0 {
        r == (n == 2)
    } else if n == 1 {
        !r
    } else {
        exists|draws: Seq<Seq<u8>>|
            draws.len() == k && (forall|i: int| 0 <= i < k ==> (#[trigger] draws[i]).len() == 32)
                && r == survives(n, draws)
    }
}

/// Whether the product of `a` and `v` is congruent to one modulo `m`.
pub open spec fn is_inverse(a: int, v: int, m: int) -> bool {
    (a * v) % m == 1int % m
}

/// Number theory on natural numbers, as associated functions.
pub struct Prime {}

impl Prime {
    /// The extended Euclidean algorithm.
    pub fn egcd(a: Integer, b: Integer) -> (r: (Integer, Integer, Integer))
        ensures
            (r.0@, r.1@, r.2@) == egcd_spec(a@, b@),
        decreases abs(a@),
    {
        if a.is_zero() {
            (b, Integer::zero(), Integer::one())
        } else {
            let rest = b.modulo(&a);
            let quotient = b.divided_by(&a);
            let (g, x, y) = Self::egcd(rest, a);
            (g, y.minus(&quotient.times(&x)), x)
        }
    }

    /// The inverse of `a` modulo `m`, or `None` where the two have a common
    /// divisor other than one.
    pub fn mod_inv(a: Natural, m: Natural) -> (r: Option<Natural>)
        requires
            !(a@ == 1 && m@ == 0),
        ensures
            r.is_some() == mod_inv_spec(a@, m@).is_some(),
            r.is_some() ==> r.unwrap()@ == mod_inv_spec(a@, m@).unwrap(),
    {
        let ghost av = a@;
        let ghost mv = m@;
        let a = Integer::from_natural(a);
        let m = Integer::from_natural(m);
        let (g, x, _) = Self::egcd(a.clone(), m.clone());
        if !g.same(&Integer::one()) {
            None
        } else {
            proof {
                lemma_egcd_of_zero(av as int);
            }
            let v = x.modulo(&m).plus(&m).modulo(&m);
            proof {
                lemma_normalized_range(x@, mv as int);
            }
            v.to_natural()
        }
    }

    /// One round of the Miller-Rabin test of `n`, with the base that the
    /// drawn bytes give.
    pub fn passes_round(n: &Natural, d: &Natural, steps: u128, draw: &[u8; 32]) -> (pass: bool)
        requires
            n@ >= 5,
        ensures
            pass == round_passes(n@, d@, steps as nat, be_value(draw@)),
    {
        let one = Natural::from_u64(1);
        let two = Natural::from_u64(2);
        let four = Natural::from_u64(4);
        let n_minus_1 = n.minus(&one);
        let drawn = Natural::from_bytes_be(draw.as_slice());
        let a = two.plus(&drawn.modulo(&n.minus(&four)));
        let mut x = a.modpow(d, n);
        let ghost first = x@;
        if x.same(&one) || x.same(&n_minus_1) {
            return true;
        }
        let mut j: u128 = 0;
        while j < steps
            invariant
                j <= steps,
                n@ >= 5,
                two@ == 2,
                one@ == 1,
                n_minus_1@ == n@ - 1,
                round_passes(n@, d@, steps as nat, be_value(draw@)) == squares_to_minus_one(
                    first,
                    n@,
                    steps as nat,
                ),
                squares_to_minus_one(first, n@, steps as nat) == squares_to_minus_one(
                    x@,
                    n@,
                    (steps - j) as nat,
                ),
            decreases steps - j,
        {
            proof {
                lemma_square_is_pow2(x@ as int);
            }
            x = x.modpow(&two, n);
            if x.same(&one) {
                return false;
            }
            if x.same(&n_minus_1) {
                return true;
            }
            j += 1;
        }
        x.same(&n_minus_1)
    }

    /// The Miller-Rabin test of primality with `k` rounds on random bases.
    pub fn is_prime(n: &Natural, k: usize) -> (r: bool)
        requires
            n@ == 3 ==> k == 0,
        ensures
            is_prime_outcome(n@, k as nat, r),
    {
        let zero = Natural::from_u64(0);
        let one = Natural::from_u64(1);
        let two = Natural::from_u64(2);
        if n.modulo(&two).same(&zero) {
            return n.same(&two);
        }
        if n.same(&one) {
            return false;
        }
        let mut d = n.minus(&one);
        let mut r: u128 = 0;
        let ghost m = (n@ - 1) as nat;
        proof {
            lemma_be_value_bound(n.bytes@);
            lemma_twos_bound(m);
            if twos(m) >= 8 * n.bytes@.len() {
                if twos(m) > 8 * n.bytes@.len() {
                    lemma_pow2_strictly_increases(8 * n.bytes@.len(), twos(m));
                }
                lemma_pow2_pos(twos(m));
                assert(pow2(twos(m)) <= pow2(twos(m)) * odd_part(m)) by (nonlinear_arith)
                    requires
                        odd_part(m) >= 1,
                        pow2(twos(m)) > 0,
                ;
            }
        }
        while d.modulo(&two).same(&zero)
            invariant
                d@ > 0,
                two@ == 2,
                zero@ == 0,
                odd_part(d@) == odd_part(m),
                r + twos(d@) == twos(m),
                twos(m) < 8 * n.bytes.len(),
            decreases d@,
        {
            proof {
                lemma2_to64();
            }
            d = d.shifted_right(1);
            r += 1;
        }
        let ghost mut draws: Seq<Seq<u8>> = Seq::empty();
        let mut i: usize = 0;
        while i < k
            invariant
                i <= k,
                n@ % 2 == 1,
                n@ != 1,
                n@ == 3 ==> k == 0,
                m == n@ - 1,
                d@ == odd_part(m),
                r == twos(m),
                r >= 1,
                draws.len() == i,
                forall|j: int| 0 <= j < i ==> (#[trigger] draws[j]).len() == 32,
                survives(n@, draws),
            decreases k - i,
        {
            let bytes = random_bytes();
            let pass = Self::passes_round(n, &d, r - 1, &bytes);
            if !pass {
                proof {
                    let failed = draws.push(bytes@);
                    let rest = Seq::new((k - i - 1) as nat, |j: int| bytes@);
                    let all = failed + rest;
                    assert(all[i as int] == bytes@);
                    assert(!survives(n@, all));
                    assert forall|j: int| 0 <= j < k implies (#[trigger] all[j]).len() == 32 by {}
                }
                return false;
            }
            proof {
                draws = draws.push(bytes@);
                assert forall|j: int| 0 <= j < draws.len() implies round_passes(
                    n@,
                    odd_part(m),
                    (twos(m) - 1) as nat,
                    be_value(#[trigger] draws[j]),
                ) by {}
            }
            i += 1;
        }
        true
    }

    /// Draws numbers of 32 bytes until one passes the test with 100 rounds,
    /// and gives up after `usize::MAX` draws. It passes over three, which the
    /// test cannot take.
    pub fn random_prime() -> (r: Option<Natural>)
        ensures
            r.is_some() ==> r.unwrap().bytes@.len() == 32 && r.unwrap()@ != 3 && is_prime_outcome(
                r.unwrap()@,
                100,
                true,
            ),
    {
        let three = Natural::from_u64(3);
        let mut attempts: usize = 0;
        while attempts < usize::MAX
            invariant
                three@ == 3,
            decreases usize::MAX - attempts,
        {
            let bytes = random_bytes();
            let p = Natural::from_bytes_be(bytes.as_slice());
            if !p.same(&three) && Self::is_prime(&p, 100) {
                return Some(p);
            }
            attempts += 1;
        }
        None
    }
}

/// A number of `len` bytes is below `2^(8 * len)`.
pub proof fn lemma_be_value_bound(bytes: Seq<u8>)
    ensures
        be_value(bytes) < pow2(8 * bytes.len()),
    decreases bytes.len(),
{
    lemma2_to64();
    if bytes.len() > 0 {
        let init = bytes.drop_last();
        lemma_be_value_bound(init);
        lemma_pow2_adds(8 * init.len(), 8);
    }
}

/// A positive number is its odd part times two to the number of its factors
/// two.
pub proof fn lemma_twos_bound(m: nat)
    requires
        m > 0,
    ensures
        pow2(twos(m)) * odd_part(m) == m,
        odd_part(m) >= 1,
        odd_part(m) % 2 == 1,
    decreases m,
{
    lemma2_to64();
    if m % 2 == 0 {
        lemma_twos_bound(m / 2);
        lemma_pow2_unfold(twos(m));
        let p = pow2(twos(m / 2));
        let o = odd_part(m / 2);
        assert((2 * p) * o == m) by (nonlinear_arith)
            requires
                p * o == m / 2,
                m % 2 == 0,
        ;
    } else {
        assert(twos(m) == 0);
    }
}

/// With zero as its second argument the algorithm returns the first as the
/// common divisor.
pub proof fn lemma_egcd_of_zero(a: int)
    ensures
        egcd_spec(a, 0).0 == a,
{
    if a != 0 {
        assert(egcd_spec(0, a) == (a, 0int, 1int));
    }
}

/// The normalized representative lies in `[0, m)` and is congruent to `x`.
pub proof fn lemma_normalized_range(x: int, m: int)
    requires
        m > 0,
    ensures
        0 <= normalized(x, m) < m,
        normalized(x, m) == x % m,
{
    let r = trunc_rem(x, m);
    if x >= 0 {
        lemma_mod_add_multiples_vanish(r, m);
        lemma_small_mod(r as nat, m as nat);
    } else {
        let t = (-x) % m;
        let q = (-x) / m;
        lemma_fundamental_div_mod(-x, m);
        if t == 0 {
            lemma_mod_self_0(m);
            assert(x == (-q) * m + 0) by (nonlinear_arith)
                requires
                    -x == m * q + 0,
            ;
            lemma_fundamental_div_mod_converse(x, m, -q, 0);
        } else {
            lemma_small_mod((r + m) as nat, m as nat);
            assert(x == (-q - 1) * m + (m - t)) by (nonlinear_arith)
                requires
                    -x == m * q + t,
            ;
            lemma_fundamental_div_mod_converse(x, m, -q - 1, m - t);
        }
    }
}

/// The division that rounds towards zero splits the dividend into a
/// multiple of the divisor and a remainder that is smaller than the divisor.
pub proof fn lemma_trunc_div_rem(b: int, a: int)
    requires
        a != 0,
    ensures
        b == a * trunc_div(b, a) + trunc_rem(b, a),
        abs(trunc_rem(b, a)) < abs(a),
        b >= 0 && a > 0 ==> trunc_rem(b, a) == b % a && trunc_div(b, a) == b / a,
{
    let n = abs(b) as int;
    let d = abs(a) as int;
    lemma_fundamental_div_mod(n, d);
    let q = n / d;
    let r = n % d;
    if b >= 0 && a < 0 {
        assert(b == a * (-q) + r) by (nonlinear_arith)
            requires
                b == (-a) * q + r,
        ;
    } else if b < 0 && a > 0 {
        assert(b == a * (-q) + (-r)) by (nonlinear_arith)
            requires
                -b == a * q + r,
        ;
    } else if b < 0 && a < 0 {
        assert(b == a * q + (-r)) by (nonlinear_arith)
            requires
                -b == (-a) * q + r,
        ;
    }
}

/// The common divisor that the algorithm returns is the combination of its
/// arguments with the coefficients that it returns.
pub proof fn lemma_egcd_bezout(a: int, b: int)
    ensures
        egcd_spec(a, b).0 == a * egcd_spec(a, b).1 + b * egcd_spec(a, b).2,
    decreases abs(a),
{
    if a != 0 {
        let q = trunc_div(b, a);
        let rem = trunc_rem(b, a);
        lemma_trunc_div_rem(b, a);
        lemma_egcd_bezout(rem, a);
        let r = egcd_spec(rem, a);
        assert(r.0 == a * (r.2 - q * r.1) + b * r.1) by (nonlinear_arith)
            requires
                r.0 == rem * r.1 + a * r.2,
                b == a * q + rem,
        ;
    }
}

/// Of two numbers that are not negative the algorithm returns a common
/// divisor that is not negative, and zero only where both are zero.
pub proof fn lemma_egcd_divides(a: int, b: int)
    requires
        a >= 0,
        b >= 0,
    ensures
        egcd_spec(a, b).0 >= 0,
        egcd_spec(a, b).0 == 0 ==> a == 0 && b == 0,
        egcd_spec(a, b).0 > 0 ==> a % egcd_spec(a, b).0 == 0 && b % egcd_spec(a, b).0 == 0,
    decreases abs(a),
{
    let g = egcd_spec(a, b).0;
    if a == 0 {
        if b > 0 {
            lemma_mod_self_0(b);
            lemma_small_mod(0, b as nat);
        }
    } else {
        let q = trunc_div(b, a);
        let rem = trunc_rem(b, a);
        lemma_trunc_div_rem(b, a);
        lemma_egcd_divides(rem, a);
        lemma_mul_mod_noop_general(a, q, g);
        assert((a * q) % g == 0) by {
            assert((a % g) * q == 0) by (nonlinear_arith)
                requires
                    a % g == 0,
            ;
            lemma_small_mod(0, g as nat);
        }
        lemma_add_mod_noop(a * q, rem, g);
        lemma_small_mod(0, g as nat);
    }
}

/// Where the algorithm finds an inverse, it is one: below the modulus, and
/// its product with `a` is congruent to one.
pub proof fn lemma_mod_inv_inverts(a: nat, m: nat)
    requires
        m > 0,
        mod_inv_spec(a, m).is_some(),
    ensures
        mod_inv_spec(a, m).unwrap() < m,
        is_inverse(a as int, mod_inv_spec(a, m).unwrap() as int, m as int),
{
    let r = egcd_spec(a as int, m as int);
    let mi = m as int;
    lemma_egcd_bezout(a as int, mi);
    lemma_normalized_range(r.1, mi);
    lemma_mul_mod_noop_general(a as int, r.1, mi);
    assert(a * r.1 == mi * (-r.2) + 1) by (nonlinear_arith)
        requires
            1 == a * r.1 + mi * r.2,
    ;
    lemma_mod_multiples_vanish(-r.2, 1, mi);
}

/// Where the algorithm finds no inverse, there is none: no number has a
/// product with `a` that is congruent to one.
pub proof fn lemma_mod_inv_none(a: nat, m: nat, v: int)
    requires
        m > 0,
        mod_inv_spec(a, m).is_none(),
    ensures
        !is_inverse(a as int, v, m as int),
{
    let mi = m as int;
    let g = egcd_spec(a as int, mi).0;
    lemma_egcd_divides(a as int, mi);
    assert(g >= 2);
    if is_inverse(a as int, v, mi) {
        // g divides m, and m is at least two, so one is its own remainder.
        if mi == 1 {
            lemma_small_mod(1, g as nat);
            assert(false);
        }
        lemma_small_mod(1, m);
        lemma_fundamental_div_mod(a * v, mi);
        assert((a * v) % mi == 1);
        let k = (a * v) / mi;
        lemma_mul_mod_noop_general(a as int, v, g);
        assert((a as int % g) * v == 0) by (nonlinear_arith)
            requires
                a as int % g == 0,
        ;
        lemma_small_mod(0, g as nat);
        lemma_mul_mod_noop_general(mi, k, g);
        assert((mi % g) * k == 0) by (nonlinear_arith)
            requires
                mi % g == 0,
        ;
        lemma_add_mod_noop(mi * k, 1, g);
        lemma_small_mod(1, g as nat);
        assert(false);
    }
}

} // verus!
