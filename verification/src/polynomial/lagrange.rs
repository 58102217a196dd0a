//! The handle of Lagrange interpolation. It holds no state: the arithmetic
//! on the points is floating point and is done by the caller's side.

use vstd::prelude::*;

verus! {

/// The handle of Lagrange interpolation.
#[derive(Clone, Copy, Debug, PartialEq, Eq, Structural)]
pub struct LagrangeInterpolation {}

impl LagrangeInterpolation {
    pub fn new() -> (lagrange: LagrangeInterpolation)
        ensures
            lagrange == (LagrangeInterpolation {  }),
    {
        LagrangeInterpolation {  }
    }
}

impl Default for LagrangeInterpolation {
    fn default() -> (lagrange: Self)
        ensures
            lagrange == (LagrangeInterpolation {  }),
    {
        Self::new()
    }
}

} // verus!
