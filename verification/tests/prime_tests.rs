use cryptography::bignum::{Integer, Natural};
use cryptography::prime::prime::Prime;

fn natural(x: u64) -> Natural {
    Natural::from_bytes_be(&x.to_be_bytes())
}

fn integer(x: i64) -> Integer {
    Integer { bytes: x.to_be_bytes().to_vec() }
}

fn value(x: &Integer) -> i128 {
    let mut value: i128 = match x.bytes.first() {
        Some(first) if *first >= 0x80 => -1,
        _ => 0,
    };
    for byte in &x.bytes {
        value = value * 256 + i128::from(*byte);
    }
    value
}

fn egcd(a: i64, b: i64) -> (i128, i128, i128) {
    let (g, x, y) = Prime::egcd(integer(a), integer(b));
    (value(&g), value(&x), value(&y))
}

#[test]
fn prime_test_mod_inv() {
    assert_eq!(Prime::mod_inv(natural(5), natural(12)), Some(natural(5)));
    assert_eq!(Prime::mod_inv(natural(17), natural(12)), Some(natural(5)));
    assert_eq!(Prime::mod_inv(natural(103), natural(12)), Some(natural(7)));
    assert_eq!(Prime::mod_inv(natural(32), natural(4)), None);
}

#[test]
fn mod_inv_of_numbers_beyond_64_bits() {
    // 2^64 + 13 is prime; the inverse of 2 modulo it is 2^63 + 7.
    let m = Natural::from_bytes_be(&[1, 0, 0, 0, 0, 0, 0, 0, 13]);
    let expected = Natural::from_bytes_be(&[0x80, 0, 0, 0, 0, 0, 0, 7]);
    assert_eq!(Prime::mod_inv(natural(2), m), Some(expected));
}

#[test]
fn mod_inv_edge_cases() {
    assert_eq!(Prime::mod_inv(natural(0), natural(1)), Some(natural(0)));
    assert_eq!(Prime::mod_inv(natural(1), natural(1)), Some(natural(0)));
    assert_eq!(Prime::mod_inv(natural(0), natural(7)), None);
    assert_eq!(Prime::mod_inv(natural(7), natural(0)), None);
    assert_eq!(Prime::mod_inv(natural(0), natural(0)), None);
    assert_eq!(Prime::mod_inv(natural(6), natural(9)), None);
    assert_eq!(Prime::mod_inv(natural(1), natural(2)), Some(natural(1)));
}

#[test]
fn egcd_returns_the_coefficients_of_the_algorithm() {
    assert_eq!(egcd(5, 12), (1, 5, -2));
    assert_eq!(egcd(17, 12), (1, 5, -7));
    assert_eq!(egcd(103, 12), (1, -5, 43));
    assert_eq!(egcd(32, 4), (4, 0, 1));
    assert_eq!(egcd(240, 46), (2, -9, 47));
    assert_eq!(egcd(0, 7), (7, 0, 1));
    assert_eq!(egcd(7, 0), (7, 1, 0));
    assert_eq!(egcd(0, 0), (0, 0, 1));
}

#[test]
fn egcd_divides_towards_zero() {
    assert_eq!(egcd(-6, 4), (-2, 1, 1));
}

#[test]
fn egcd_meets_the_identity_of_bezout() {
    for a in -20i64..=20 {
        for b in -20i64..=20 {
            let (g, x, y) = egcd(a, b);
            assert_eq!(g, i128::from(a) * x + i128::from(b) * y);
        }
    }
}

#[test]
fn natural_equality_ignores_leading_zeros() {
    assert_eq!(Natural::from_bytes_be(&[0, 0, 5]), Natural::from_bytes_be(&[5]));
    assert_eq!(Natural::from_bytes_be(&[]), Natural::from_bytes_be(&[0]));
    assert_ne!(Natural::from_bytes_be(&[5, 0]), Natural::from_bytes_be(&[5]));
    assert_eq!(Natural::from_bytes_be(&[1, 2]).clone(), natural(258));
}

#[test]
fn integer_bytes_are_in_twos_complement() {
    assert_eq!(value(&Integer { bytes: vec![] }), 0);
    assert_eq!(value(&Integer { bytes: vec![0x7f] }), 127);
    assert_eq!(value(&Integer { bytes: vec![0x80] }), -128);
    assert_eq!(value(&Integer { bytes: vec![0xff] }), -1);
    assert_eq!(value(&Integer { bytes: vec![0x00, 0x80] }), 128);
    assert_eq!(value(&Integer { bytes: vec![0xff, 0x7f] }), -129);
    assert_eq!(egcd(-1, -1), (-1, 1, 0));
    assert_eq!(egcd(-128, 0), (-128, 1, 0));
    assert_eq!(egcd(128, 0), (128, 1, 0));
}

#[test]
fn integer_from_natural_keeps_a_high_first_byte_positive() {
    assert_eq!(value(&Integer::from_natural(Natural::from_bytes_be(&[0x80]))), 128);
    assert_eq!(value(&Integer::from_natural(Natural::from_bytes_be(&[0xff, 0xff]))), 65535);
    assert_eq!(value(&Integer::from_natural(Natural::from_bytes_be(&[]))), 0);
    assert_eq!(Prime::mod_inv(natural(200), natural(251)), Some(natural(187)));
    assert_eq!(Prime::mod_inv(natural(128), natural(255)), Some(natural(2)));
}

#[test]
fn integer_constants() {
    assert_eq!(value(&Integer::zero()), 0);
    assert_eq!(value(&Integer::one()), 1);
    assert_eq!(value(&Integer::from_natural(natural(300))), 300);
    assert_eq!(value(&Integer::one().clone()), 1);
}

#[test]
fn is_prime_of_even_numbers_and_one() {
    assert!(Prime::is_prime(&natural(2), 10));
    assert!(!Prime::is_prime(&natural(0), 10));
    assert!(!Prime::is_prime(&natural(4), 10));
    assert!(!Prime::is_prime(&natural(1), 10));
    assert!(!Prime::is_prime(&natural(1_000_000), 0));
}

#[test]
fn is_prime_without_rounds_accepts_every_odd_number() {
    assert!(Prime::is_prime(&natural(3), 0));
    assert!(Prime::is_prime(&natural(9), 0));
    assert!(Prime::is_prime(&natural(15), 0));
}

#[test]
fn is_prime_accepts_primes() {
    for p in [5u64, 7, 11, 13, 97, 7919, 104_729, 2_147_483_647, 18_446_744_073_709_551_557] {
        assert!(Prime::is_prime(&natural(p), 20), "{}", p);
    }
    // 2^127 - 1
    let mut bytes = [0xffu8; 16];
    bytes[0] = 0x7f;
    assert!(Prime::is_prime(&Natural::from_bytes_be(&bytes), 20));
}

#[test]
fn is_prime_rejects_composites() {
    // Among them 561 and 1729, which pass the Fermat test to every base.
    for c in [9u64, 15, 21, 25, 91, 561, 1729, 7917, 2_147_483_649, 18_446_744_073_709_551_555] {
        assert!(!Prime::is_prime(&natural(c), 40), "{}", c);
    }
}

#[test]
fn passes_round_with_a_given_draw() {
    let zero = [0u8; 32];
    let mut fifty = [0u8; 32];
    fifty[31] = 50;
    // 13 - 1 = 3 * 2^2; the draw zero gives the base two: 8, then 12.
    assert!(Prime::passes_round(&natural(13), &natural(3), 1, &zero));
    // Without the squaring the round stops at 8.
    assert!(!Prime::passes_round(&natural(13), &natural(3), 0, &zero));
    // 15 - 1 = 7 * 2; 2^7 = 8 modulo 15.
    assert!(!Prime::passes_round(&natural(15), &natural(7), 0, &zero));
    // 561 - 1 = 35 * 2^4; two is a witness: 263, 166, 67, 1.
    assert!(!Prime::passes_round(&natural(561), &natural(35), 3, &zero));
    assert!(!Prime::passes_round(&natural(561), &natural(35), 3, &fifty));
    // 91 passes with the base nine, which the draw seven gives, not with two.
    let mut seven = [0u8; 32];
    seven[31] = 7;
    assert!(Prime::passes_round(&natural(91), &natural(45), 0, &seven));
    assert!(!Prime::passes_round(&natural(91), &natural(45), 0, &zero));
    // A draw beyond n - 4 wraps around: 87 + 7 gives the base nine again.
    let mut wrapped = [0u8; 32];
    wrapped[31] = 94;
    assert!(Prime::passes_round(&natural(91), &natural(45), 0, &wrapped));
}

#[test]
fn random_prime_draws_a_number_that_passes_again() {
    let p = Prime::random_prime().unwrap();
    assert_eq!(p.bytes.len(), 32);
    assert_ne!(p, natural(3));
    assert!(Prime::is_prime(&p, 20));
}
