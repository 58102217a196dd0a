use cryptography::polynomial::lagrange::LagrangeInterpolation;

#[test]
fn lagrange_new_and_default_agree() {
    assert_eq!(LagrangeInterpolation::new(), LagrangeInterpolation::default());
}
