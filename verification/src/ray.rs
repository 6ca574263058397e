//! Rays: an origin point and a direction vector.

use crate::matrix::{m4_tuple, Mat4x4};
use crate::tuple::{t_add, t_mul, Tuple};
use crate::fixed::Fx;
use vstd::prelude::*;

verus! {

/// A ray through the scene.
#[derive(Clone, Copy, Debug, PartialEq, Eq, Structural)]
pub struct Ray {
    pub origin: Tuple,
    pub direction: Tuple,
}

/// The point a parameter `t` along a ray: `origin + direction * t`.
pub open spec fn ray_position(r: Ray, t: Fx) -> Tuple {
    t_add(r.origin, t_mul(r.direction, t))
}

/// A ray carried through a transform: both origin and direction multiplied.
pub open spec fn m4_ray(m: Mat4x4, r: Ray) -> Ray {
    Ray { origin: m4_tuple(m, r.origin), direction: m4_tuple(m, r.direction) }
}

impl Ray {
    /// A ray from its origin and direction.
    pub fn new(origin: Tuple, direction: Tuple) -> (r: Ray)
        ensures
            r == (Ray { origin, direction }),
    {
        Ray { origin, direction }
    }

    /// The point the parameter `t` along the ray.
    pub fn position(&self, t: Fx) -> (r: Tuple)
        ensures
            r == ray_position(*self, t),
    {
        self.origin.add(self.direction.mul(t))
    }
}

impl Mat4x4 {
    /// The ray carried through this transform.
    pub fn mul_ray(self, r: Ray) -> (res: Ray)
        ensures
            res == m4_ray(self, r),
    {
        Ray { origin: self.mul_tuple(r.origin), direction: self.mul_tuple(r.direction) }
    }
}

} // verus!
