//! An element of a field, with the operators of the field on it.

use vstd::prelude::*;
use vstd::std_specs::cmp::PartialEqSpecImpl;
use vstd::std_specs::ops::AddSpecImpl;
use vstd::std_specs::ops::MulSpecImpl;
use vstd::std_specs::ops::NegSpecImpl;
use vstd::std_specs::ops::SubSpecImpl;
use crate::Field;

verus! {

/// A value of the base type of a field `F`, with the arithmetic of `F` as its
/// operators.
pub struct FieldElement<F: Field> {
    pub value: F::BaseType,
}

impl<F: Field> std::ops::Add<&FieldElement<F>> for &FieldElement<F> {
    type Output = FieldElement<F>;

    fn add(self, other: &FieldElement<F>) -> (sum: FieldElement<F>) {
        FieldElement { value: <F as Field>::add(&self.value, &other.value) }
    }
}

impl<F: Field> AddSpecImpl<&FieldElement<F>> for &FieldElement<F> {
    open spec fn obeys_add_spec() -> bool {
        true
    }

    open spec fn add_req(self, other: &FieldElement<F>) -> bool {
        F::usable()
    }

    open spec fn add_spec(self, other: &FieldElement<F>) -> FieldElement<F> {
        FieldElement { value: F::add_spec(self.value, other.value) }
    }
}

impl<F: Field> std::ops::Sub<&FieldElement<F>> for &FieldElement<F> {
    type Output = FieldElement<F>;

    fn sub(self, other: &FieldElement<F>) -> (difference: FieldElement<F>) {
        FieldElement { value: <F as Field>::sub(&self.value, &other.value) }
    }
}

impl<F: Field> SubSpecImpl<&FieldElement<F>> for &FieldElement<F> {
    open spec fn obeys_sub_spec() -> bool {
        true
    }

    open spec fn sub_req(self, other: &FieldElement<F>) -> bool {
        F::usable() && F::sub_accepts(self.value, other.value)
    }

    open spec fn sub_spec(self, other: &FieldElement<F>) -> FieldElement<F> {
        FieldElement { value: F::sub_spec(self.value, other.value) }
    }
}

impl<F: Field> std::ops::Mul<&FieldElement<F>> for &FieldElement<F> {
    type Output = FieldElement<F>;

    fn mul(self, other: &FieldElement<F>) -> (product: FieldElement<F>) {
        FieldElement { value: <F as Field>::mul(&self.value, &other.value) }
    }
}

impl<F: Field> MulSpecImpl<&FieldElement<F>> for &FieldElement<F> {
    open spec fn obeys_mul_spec() -> bool {
        true
    }

    open spec fn mul_req(self, other: &FieldElement<F>) -> bool {
        F::usable()
    }

    open spec fn mul_spec(self, other: &FieldElement<F>) -> FieldElement<F> {
        FieldElement { value: F::mul_spec(self.value, other.value) }
    }
}

impl<F: Field> std::ops::Neg for &FieldElement<F> {
    type Output = FieldElement<F>;

    fn neg(self) -> (negative: FieldElement<F>) {
        FieldElement { value: <F as Field>::neg(&self.value) }
    }
}

impl<F: Field> NegSpecImpl for &FieldElement<F> {
    open spec fn obeys_neg_spec() -> bool {
        true
    }

    open spec fn neg_req(self) -> bool {
        F::neg_accepts(self.value)
    }

    open spec fn neg_spec(self) -> FieldElement<F> {
        FieldElement { value: F::neg_spec(self.value) }
    }
}

impl<F: Field> FieldElement<F> {
    /// The element that the field makes of an integer.
    pub fn from(value: u64) -> (element: Self)
        requires
            F::usable(),
        ensures
            element.value == F::from_u64_spec(value),
    {
        Self { value: F::from_u64(value) }
    }

    /// The element that holds a copy of a value of the base type.
    pub fn from_base(value: &F::BaseType) -> (element: Self)
        ensures
            cloned(*value, element.value),
    {
        Self { value: value.clone() }
    }

    /// Replaces the element by its sum with another.
    pub fn add_assign(&mut self, other: &FieldElement<F>)
        requires
            F::usable(),
        ensures
            final(self).value == F::add_spec(old(self).value, other.value),
    {
        *self = FieldElement::<F> { value: <F as Field>::add(&self.value, &other.value) }
    }

    /// Replaces the element by its difference from another.
    pub fn sub_assign(&mut self, other: &FieldElement<F>)
        requires
            F::usable(),
            F::sub_accepts(old(self).value, other.value),
        ensures
            final(self).value == F::sub_spec(old(self).value, other.value),
    {
        *self = FieldElement::<F> { value: <F as Field>::sub(&self.value, &other.value) }
    }

    /// Replaces the element by its product with another.
    pub fn mul_assign(&mut self, other: &FieldElement<F>)
        requires
            F::usable(),
        ensures
            final(self).value == F::mul_spec(old(self).value, other.value),
    {
        *self = FieldElement::<F> { value: <F as Field>::mul(&self.value, &other.value) }
    }
}

impl<F: Field> PartialEq<FieldElement<F>> for FieldElement<F> {
    fn eq(&self, other: &FieldElement<F>) -> (r: bool) {
        F::eq(&self.value, &other.value)
    }
}

impl<F: Field> PartialEqSpecImpl<FieldElement<F>> for FieldElement<F> {
    open spec fn obeys_eq_spec() -> bool {
        true
    }

    open spec fn eq_spec(&self, other: &FieldElement<F>) -> bool {
        F::eq_spec(self.value, other.value)
    }
}

} // verus!
