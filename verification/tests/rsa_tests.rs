use cryptography::bignum::Natural;
use cryptography::pk::rsa::RSA;

fn natural(x: u64) -> Natural {
    Natural::from_bytes_be(&x.to_be_bytes())
}

#[test]
fn test_rsa() {
    let rsa = RSA::new().unwrap();

    let m = natural(23);

    let c = rsa.encrypt(&m);

    let m2 = rsa.decrypt(&c);
    assert_eq!(m, m2);
}

#[test]
fn test_rsa_str() {
    let rsa = RSA::new().unwrap();

    let s = "Hello, World!";
    let v = rsa.encrypt_str(s);
    let s2 = rsa.decrypt_str(&v);
    assert_eq!(s, s2);
}

#[test]
fn rsa_from_known_primes() {
    // n = 3233, (p - 1) * (q - 1) = 3120, d = 2753.
    let rsa = RSA::from_primes(&natural(61), &natural(53), natural(17)).ok().unwrap();
    assert_eq!(rsa.encrypt(&natural(65)), natural(2790));
    assert_eq!(rsa.decrypt(&natural(2790)), natural(65));
    assert_eq!(rsa.encrypt(&natural(0)), natural(0));
    assert_eq!(rsa.encrypt(&natural(1)), natural(1));
    // A message beyond the modulus is reduced.
    assert_eq!(rsa.encrypt(&natural(3233 + 65)), natural(2790));
}

#[test]
fn rsa_from_primes_needs_an_invertible_exponent() {
    assert_eq!(RSA::from_primes(&natural(61), &natural(53), natural(6)).err(), Some("e has no modular inverse"));
    assert_eq!(RSA::from_primes(&natural(61), &natural(53), natural(0)).err(), Some("e has no modular inverse"));
}

#[test]
fn rsa_text_with_known_primes() {
    let rsa = RSA::from_primes(&natural(61), &natural(53), natural(17)).ok().unwrap();
    let v = rsa.encrypt_str("Az");
    assert_eq!(v, vec![natural(2790), natural(1830)]);
    assert_eq!(rsa.decrypt_str(&v), "Az");
    assert_eq!(rsa.encrypt_str(""), Vec::<Natural>::new());
    assert_eq!(rsa.decrypt_str(&[]), "");
}

#[test]
fn rsa_decrypt_str_keeps_the_low_byte() {
    // 321 = 0x141, whose low byte is 'A'.
    let rsa = RSA::from_primes(&natural(61), &natural(53), natural(17)).ok().unwrap();
    let c = rsa.encrypt(&natural(321));
    assert_eq!(rsa.decrypt(&c), natural(321));
    assert_eq!(rsa.decrypt_str(&[c]), "A");
}

#[test]
fn rsa_with_an_even_modulus() {
    // n = 2 * 7 = 14, (p - 1) * (q - 1) = 6, e = 5, d = 5.
    let rsa = RSA::from_primes(&natural(2), &natural(7), natural(5)).ok().unwrap();
    assert_eq!(rsa.encrypt(&natural(3)), natural(5));
    assert_eq!(rsa.decrypt(&natural(5)), natural(3));
    assert_eq!(rsa.encrypt(&natural(0)), natural(0));
    assert_eq!(rsa.encrypt(&natural(15)), natural(1));
}

#[test]
fn rsa_with_the_modulus_one() {
    // p = q = 1 gives n = 1 and the inverse of e modulo zero, which only
    // one has; every power is zero modulo one.
    assert_eq!(RSA::from_primes(&natural(1), &natural(1), natural(5)).err(), Some("e has no modular inverse"));
    let rsa = RSA::from_primes(&natural(1), &natural(2), natural(0));
    assert_eq!(rsa.err(), Some("e has no modular inverse"));
}
