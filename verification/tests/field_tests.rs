use cryptography::fields::element::FieldElement;
use cryptography::fields::u64_field::U64Field;
use cryptography::Field;

pub type U64TestField = U64Field<18446744069414584321>;

#[test]
fn test_add_two_field_element() {
    let a: FieldElement<U64TestField> = FieldElement::<U64TestField>::from(10);
    let b: FieldElement<U64TestField> = FieldElement::<U64TestField>::from(10);

    let c: FieldElement<U64TestField> = &a + &b;

    assert!(c == FieldElement::<U64TestField>::from(20));
    assert!(c.value == 20);
}

#[test]
fn test_add_assign_two_field_element() {
    let mut a: FieldElement<U64TestField> = FieldElement::<U64TestField>::from(10);
    let b: FieldElement<U64TestField> = FieldElement::<U64TestField>::from(10);

    a.add_assign(&b);

    assert!(a == FieldElement::<U64TestField>::from(20));
    assert!(a.value == 20);
}

#[test]
fn test_sub_two_field_element() {
    let a: FieldElement<U64TestField> = FieldElement::<U64TestField>::from(10);
    let b: FieldElement<U64TestField> = FieldElement::<U64TestField>::from(5);

    let c: FieldElement<U64TestField> = &a - &b;

    assert!(c == FieldElement::<U64TestField>::from(5));
    assert!(c.value == 5);
}

#[test]
fn test_sub_assign_two_field_element() {
    let mut a: FieldElement<U64TestField> = FieldElement::<U64TestField>::from(10);
    let b: FieldElement<U64TestField> = FieldElement::<U64TestField>::from(5);

    a.sub_assign(&b);

    assert!(a == FieldElement::<U64TestField>::from(5));
    assert!(a.value == 5);
}

#[test]
fn test_neg_field_element() {
    let a: FieldElement<U64TestField> = FieldElement::<U64TestField>::from(18446744069414584320);

    let c: FieldElement<U64TestField> = -&a;

    assert!(c == FieldElement::<U64TestField>::from(1));
    assert!(c.value == 1);
}

#[test]
fn test_mul_field_element() {
    let a: FieldElement<U64TestField> = FieldElement::<U64TestField>::from(14);
    let b: FieldElement<U64TestField> = FieldElement::<U64TestField>::from(14);

    let c: FieldElement<U64TestField> = &a * &b;

    assert!(c == FieldElement::<U64TestField>::from(196));
    assert!(c.value == 196);
}

#[test]
fn test_mul_assign_field_element() {
    let mut a: FieldElement<U64TestField> = FieldElement::<U64TestField>::from(14);
    let b: FieldElement<U64TestField> = FieldElement::<U64TestField>::from(14);

    a.mul_assign(&b);

    assert!(a == FieldElement::<U64TestField>::from(196));
    assert!(a.value == 196);
}

type Small = U64Field<7>;

#[test]
fn u64_field_add_wraps_at_the_modulus() {
    assert_eq!(Small::add(&3, &4), 0);
    assert_eq!(Small::add(&6, &6), 5);
    assert_eq!(U64TestField::add(&18446744069414584320, &18446744069414584320), 18446744069414584319);
    // Operands need not be reduced: the sum is taken in 128 bits.
    assert_eq!(Small::add(&u64::MAX, &u64::MAX), 2);
}

#[test]
fn u64_field_sub_borrows_the_modulus() {
    assert_eq!(Small::sub(&3, &4), 6);
    assert_eq!(Small::sub(&4, &3), 1);
    assert_eq!(Small::sub(&0, &7), 0);
    assert_eq!(U64TestField::sub(&0, &1), 18446744069414584320);
}

#[test]
fn u64_field_mul_is_taken_in_128_bits() {
    assert_eq!(Small::mul(&3, &4), 5);
    assert_eq!(U64TestField::mul(&18446744069414584320, &18446744069414584320), 1);
    assert_eq!(Small::mul(&u64::MAX, &u64::MAX), 1);
}

#[test]
fn u64_field_neg_is_the_distance_to_the_modulus() {
    assert_eq!(Small::neg(&3), 4);
    assert_eq!(Small::neg(&7), 0);
    assert_eq!(Small::neg(&0), 7);
}

#[test]
fn u64_field_pow_is_the_reduced_exclusive_or() {
    assert_eq!(Small::pow(&3, &5), 6);
    assert_eq!(Small::pow(&8, &1), 2);
    assert_eq!(Small::pow(&5, &5), 0);
}

#[test]
fn u64_field_from_u64_reduces() {
    assert_eq!(Small::from_u64(0), 0);
    assert_eq!(Small::from_u64(7), 0);
    assert_eq!(Small::from_u64(23), 2);
    assert_eq!(U64TestField::from_u64(u64::MAX), 4294967294);
}

#[test]
fn u64_field_eq_compares_values() {
    assert!(Small::eq(&3, &3));
    assert!(!Small::eq(&3, &10));
}

#[test]
fn field_element_from_base_keeps_the_value() {
    let a: FieldElement<Small> = FieldElement::<Small>::from_base(&9);
    assert_eq!(a.value, 9);
    assert!(a != FieldElement::<Small>::from(9));
    assert!(a == FieldElement::<Small>::from_base(&9));
}
