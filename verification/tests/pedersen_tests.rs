use std::str::FromStr;

use cryptography::bignum::Natural;
use cryptography::commitments::pedersen::Pedersen;
use cryptography::Commitment;
use num_bigint::BigUint;

fn decimal(digits: &str) -> Natural {
    Natural::from_bytes_be(&BigUint::from_str(digits).unwrap().to_bytes_be())
}

#[test]
fn test_pedersen() {
    let mut pedersen = Pedersen::new(
        decimal("835633126610936170404251455173303609923742171077"),
        decimal("1671266253221872340808502910346607219847484342155"),
        decimal("853879156962728674489578584402624767640115848839"),
        decimal("312816528258481903392461143384659987330939968504"),
    );
    pedersen.setup(256);
    let input = b"hello world";
    let commitment = pedersen.commit(input);
    assert!(pedersen.verify(input, &commitment));
}

#[test]
fn pedersen_commit_yields_no_bytes() {
    let mut pedersen = Pedersen::new(decimal("11"), decimal("23"), decimal("2"), decimal("3"));
    assert_eq!(pedersen.commit(b"hello world"), Vec::<u8>::new());
    assert!(pedersen.verify(b"", &[1, 2, 3]));
}

#[test]
fn pedersen_setup_from_draws() {
    let mut pedersen = Pedersen::new(decimal("0"), decimal("0"), decimal("0"), decimal("0"));
    // p = 11, q = 23, g = 5, h = 5^3 mod 23 = 10.
    pedersen.setup_from_draws(decimal("11"), 5, 3);
    assert_eq!(pedersen.p(), &decimal("11"));
    assert_eq!(pedersen.q(), &decimal("23"));
    assert_eq!(pedersen.g(), &decimal("5"));
    assert_eq!(pedersen.h(), &decimal("10"));
}

#[test]
fn pedersen_setup_from_draws_with_small_moduli() {
    let mut pedersen = Pedersen::new(decimal("0"), decimal("0"), decimal("0"), decimal("0"));
    // p = 0 gives q = 1, modulo which every power is zero.
    pedersen.setup_from_draws(decimal("0"), 5, 0);
    assert_eq!(pedersen.q(), &decimal("1"));
    assert_eq!(pedersen.h(), &decimal("0"));
    pedersen.setup_from_draws(decimal("0"), 5, 3);
    assert_eq!(pedersen.h(), &decimal("0"));
    // q = 3: 5^0 = 1, 5^1 = 2, 0^0 = 1, 0^2 = 0.
    pedersen.setup_from_draws(decimal("1"), 5, 0);
    assert_eq!(pedersen.h(), &decimal("1"));
    pedersen.setup_from_draws(decimal("1"), 5, 1);
    assert_eq!(pedersen.h(), &decimal("2"));
    pedersen.setup_from_draws(decimal("1"), 0, 0);
    assert_eq!(pedersen.h(), &decimal("1"));
    pedersen.setup_from_draws(decimal("1"), 0, 2);
    assert_eq!(pedersen.h(), &decimal("0"));
}

#[test]
fn pedersen_setup_with_params_sets_them() {
    let mut pedersen = Pedersen::new(decimal("1"), decimal("2"), decimal("3"), decimal("4"));
    assert_eq!(pedersen.q(), &decimal("2"));
    pedersen.setup_with_params(decimal("11"), decimal("23"), decimal("5"), decimal("10"));
    assert_eq!(pedersen.p(), &decimal("11"));
    assert_eq!(pedersen.q(), &decimal("23"));
    assert_eq!(pedersen.g(), &decimal("5"));
    assert_eq!(pedersen.h(), &decimal("10"));
}

#[test]
fn pedersen_setup_changes_nothing_or_sets_consistent_parameters() {
    let mut pedersen = Pedersen::new(decimal("1"), decimal("2"), decimal("3"), decimal("4"));
    let done = pedersen.setup(256);
    if done {
        let two = decimal("2");
        let one = decimal("1");
        let p = BigUint::from_bytes_be(&pedersen.p().bytes);
        let q = BigUint::from_bytes_be(&pedersen.q().bytes);
        let g = BigUint::from_bytes_be(&pedersen.g().bytes);
        let h = BigUint::from_bytes_be(&pedersen.h().bytes);
        let expected = p * BigUint::from_bytes_be(&two.bytes) + BigUint::from_bytes_be(&one.bytes);
        assert_eq!(q, expected);
        assert!(g < q);
        assert!(h < q);
    } else {
        assert_eq!(pedersen.p(), &decimal("1"));
        assert_eq!(pedersen.q(), &decimal("2"));
        assert_eq!(pedersen.g(), &decimal("3"));
        assert_eq!(pedersen.h(), &decimal("4"));
    }
}
