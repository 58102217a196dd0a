use cryptography::bignum::{Integer, Natural};
use cryptography::primes::prime::Prime;

fn natural(x: u64) -> Natural {
    Natural::from_bytes_be(&x.to_be_bytes())
}

#[test]
fn natural_mod_inv_as_a_method() {
    assert_eq!(natural(5).mod_inv(&natural(12)), Some(natural(5)));
    assert_eq!(natural(17).mod_inv(&natural(12)), Some(natural(5)));
    assert_eq!(natural(103).mod_inv(&natural(12)), Some(natural(7)));
    assert_eq!(natural(32).mod_inv(&natural(4)), None);
}

#[test]
fn natural_is_prime_as_a_method() {
    assert!(natural(7919).is_prime(20));
    assert!(!natural(7917).is_prime(20));
    assert!(natural(2).is_prime(1));
}

#[test]
fn natural_egcd_as_an_associated_function() {
    let (g, x, y) = <Natural as Prime>::egcd(
        Integer { bytes: vec![0x00, 240] },
        Integer { bytes: vec![46] },
    );
    assert_eq!(g.bytes, vec![2]);
    assert_eq!(x.bytes, vec![0xf7]);
    assert_eq!(y.bytes, vec![47]);
}

#[test]
fn natural_random_prime_as_an_associated_function() {
    let p = <Natural as Prime>::random_prime().unwrap();
    assert!(p.is_prime(10));
}
