//! A bare transformed unit sphere: the geometry alone, for callers that
//! need a sphere without a material. Scene work goes through the tagged
//! [`crate::shape::Shape`], which carries a material as well.

use crate::matrix::{mat4_id, Mat4x4};
use vstd::prelude::*;

verus! {

/// A unit sphere carrying an object-to-world transform.
#[derive(Clone, Copy, Debug)]
pub struct Sphere {
    pub transform: Mat4x4,
}

impl Sphere {
    /// A sphere with the identity transform.
    pub fn new() -> (r: Sphere)
        ensures
            r == (Sphere { transform: mat4_id() }),
    {
        Sphere { transform: Mat4x4::identity() }
    }
}

impl Default for Sphere {
    /// The same as [`Sphere::new`].
    fn default() -> (r: Sphere)
        ensures
            r == (Sphere { transform: mat4_id() }),
    {
        Sphere::new()
    }
}

impl PartialEq for Sphere {
    /// Transforms within the matrix tolerance.
    fn eq(&self, other: &Sphere) -> (r: bool) {
        self.transform == other.transform
    }
}

impl vstd::std_specs::cmp::PartialEqSpecImpl for Sphere {
    open spec fn obeys_eq_spec() -> bool {
        true
    }

    open spec fn eq_spec(&self, other: &Sphere) -> bool {
        crate::matrix::mat4_near(self.transform, other.transform, crate::matrix::EQ_TOL as int)
    }
}

impl Eq for Sphere {}

} // verus!
