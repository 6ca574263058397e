//! Four-component tuples: `w == 1` marks a point, `w == 0` a vector.
//!
//! Each operation's contract gives the result exactly, component by
//! component, through the spec mirrors below, which chain the scalar
//! formulas of [`crate::fixed`] in the evaluation order of the code.

use crate::fixed::{add_m, div_m, mul_m, neg_m, sat_m, sqrt_m, sub_m, Fx, SCALE};
use vstd::prelude::*;

verus! {

/// The scalar with the given exact mantissa, saturated into range.
pub open spec fn fxv(v: int) -> Fx {
    Fx { m: sat_m(v) as i64 }
}

/// The scalar holding the whole number `v`, saturated.
pub open spec fn fx_int(v: int) -> Fx {
    fxv(v * (crate::fixed::SCALE as int))
}

/// Spec mirror of scalar addition.
pub open spec fn fx_add(a: Fx, b: Fx) -> Fx {
    fxv(a.m + b.m)
}

/// Spec mirror of scalar subtraction.
pub open spec fn fx_sub(a: Fx, b: Fx) -> Fx {
    fxv(a.m - b.m)
}

/// Spec mirror of scalar negation.
pub open spec fn fx_neg(a: Fx) -> Fx {
    Fx { m: neg_m(a.m as int) as i64 }
}

/// Spec mirror of scalar multiplication.
pub open spec fn fx_mul(a: Fx, b: Fx) -> Fx {
    Fx { m: mul_m(a.m as int, b.m as int) as i64 }
}

/// Spec mirror of scalar division.
pub open spec fn fx_div(a: Fx, b: Fx) -> Fx {
    Fx { m: div_m(a.m as int, b.m as int) as i64 }
}

/// Spec mirror of the scalar square root.
pub open spec fn fx_sqrt(a: Fx) -> Fx {
    Fx { m: sqrt_m(a.m as int) as i64 }
}

/// A point or a vector, by the `w` component.
#[derive(Clone, Copy, Debug, PartialEq, Eq, Structural)]
pub struct Tuple {
    pub x: Fx,
    pub y: Fx,
    pub z: Fx,
    pub w: Fx,
}

/// Componentwise sum.
pub open spec fn t_add(a: Tuple, b: Tuple) -> Tuple {
    Tuple { x: fx_add(a.x, b.x), y: fx_add(a.y, b.y), z: fx_add(a.z, b.z), w: fx_add(a.w, b.w) }
}

/// Componentwise difference.
pub open spec fn t_sub(a: Tuple, b: Tuple) -> Tuple {
    Tuple { x: fx_sub(a.x, b.x), y: fx_sub(a.y, b.y), z: fx_sub(a.z, b.z), w: fx_sub(a.w, b.w) }
}

/// Componentwise negation.
pub open spec fn t_neg(a: Tuple) -> Tuple {
    Tuple { x: fx_neg(a.x), y: fx_neg(a.y), z: fx_neg(a.z), w: fx_neg(a.w) }
}

/// Componentwise scaling by a scalar.
pub open spec fn t_mul(a: Tuple, k: Fx) -> Tuple {
    Tuple { x: fx_mul(a.x, k), y: fx_mul(a.y, k), z: fx_mul(a.z, k), w: fx_mul(a.w, k) }
}

/// Componentwise division by a scalar.
pub open spec fn t_div(a: Tuple, k: Fx) -> Tuple {
    Tuple { x: fx_div(a.x, k), y: fx_div(a.y, k), z: fx_div(a.z, k), w: fx_div(a.w, k) }
}

/// Dot product, summed left to right.
pub open spec fn t_dot(a: Tuple, b: Tuple) -> Fx {
    fx_add(
        fx_add(fx_add(fx_mul(a.x, b.x), fx_mul(a.y, b.y)), fx_mul(a.z, b.z)),
        fx_mul(a.w, b.w),
    )
}

/// Magnitude: the square root of the dot product with itself.
pub open spec fn t_magnitude(a: Tuple) -> Fx {
    fx_sqrt(t_dot(a, a))
}

/// Normalization: each component divided by the magnitude.
pub open spec fn t_normalize(a: Tuple) -> Tuple {
    t_div(a, t_magnitude(a))
}

/// Cross product of the spatial components, as a vector.
pub open spec fn t_cross(a: Tuple, b: Tuple) -> Tuple {
    Tuple {
        x: fx_sub(fx_mul(a.y, b.z), fx_mul(a.z, b.y)),
        y: fx_sub(fx_mul(a.z, b.x), fx_mul(a.x, b.z)),
        z: fx_sub(fx_mul(a.x, b.y), fx_mul(a.y, b.x)),
        w: Fx { m: 0 },
    }
}

/// Reflection of `a` about the normal `n`: `a - n * 2 * dot(a, n)`.
pub open spec fn t_reflect(a: Tuple, n: Tuple) -> Tuple {
    t_sub(a, t_mul(t_mul(n, fxv(2 * (SCALE as int))), t_dot(a, n)))
}

impl Tuple {
    /// A tuple from its four components.
    pub fn new(x: Fx, y: Fx, z: Fx, w: Fx) -> (r: Tuple)
        ensures
            r == (Tuple { x, y, z, w }),
    {
        Tuple { x, y, z, w }
    }

    /// A tuple from an array of four components.
    pub fn from_array(a: [Fx; 4]) -> (r: Tuple)
        ensures
            r == (Tuple { x: a[0], y: a[1], z: a[2], w: a[3] }),
    {
        Tuple { x: a[0], y: a[1], z: a[2], w: a[3] }
    }

    /// Whether `w` holds exactly one, the mark of a point.
    pub fn is_point(&self) -> (r: bool)
        ensures
            r == (self.w.m == SCALE),
    {
        self.w.m == SCALE
    }

    /// Whether `w` holds exactly zero, the mark of a vector.
    pub fn is_vector(&self) -> (r: bool)
        ensures
            r == (self.w.m == 0),
    {
        self.w.m == 0
    }

    /// Componentwise sum; point + vector stays a point, vector + vector a
    /// vector.
    pub fn add(self, rhs: Tuple) -> (r: Tuple)
        ensures
            r == t_add(self, rhs),
    {
        Tuple {
            x: self.x.add(rhs.x),
            y: self.y.add(rhs.y),
            z: self.z.add(rhs.z),
            w: self.w.add(rhs.w),
        }
    }

    /// Componentwise difference; point − point is a vector.
    pub fn sub(self, rhs: Tuple) -> (r: Tuple)
        ensures
            r == t_sub(self, rhs),
    {
        Tuple {
            x: self.x.sub(rhs.x),
            y: self.y.sub(rhs.y),
            z: self.z.sub(rhs.z),
            w: self.w.sub(rhs.w),
        }
    }

    /// Componentwise negation.
    pub fn neg(self) -> (r: Tuple)
        ensures
            r == t_neg(self),
    {
        Tuple { x: self.x.neg(), y: self.y.neg(), z: self.z.neg(), w: self.w.neg() }
    }

    /// Componentwise scaling by a scalar.
    pub fn mul(self, k: Fx) -> (r: Tuple)
        ensures
            r == t_mul(self, k),
    {
        Tuple { x: self.x.mul(k), y: self.y.mul(k), z: self.z.mul(k), w: self.w.mul(k) }
    }

    /// Componentwise division by a scalar.
    pub fn div(self, k: Fx) -> (r: Tuple)
        ensures
            r == t_div(self, k),
    {
        Tuple { x: self.x.div(k), y: self.y.div(k), z: self.z.div(k), w: self.w.div(k) }
    }

    /// Magnitude. The zero tuple has magnitude zero; per the design, callers
    /// never normalize such a tuple.
    pub fn magnitude(&self) -> (r: Fx)
        ensures
            r == t_magnitude(*self),
    {
        self.dot(*self).sqrt()
    }

    /// Each component divided by the magnitude.
    pub fn normalize(&self) -> (r: Tuple)
        ensures
            r == t_normalize(*self),
    {
        let m = self.magnitude();
        self.div(m)
    }

    /// Dot product.
    pub fn dot(&self, rhs: Tuple) -> (r: Fx)
        ensures
            r == t_dot(*self, rhs),
    {
        self.x.mul(rhs.x).add(self.y.mul(rhs.y)).add(self.z.mul(rhs.z)).add(self.w.mul(rhs.w))
    }

    /// Cross product; meaningful for vectors.
    pub fn cross(&self, rhs: Tuple) -> (r: Tuple)
        ensures
            r == t_cross(*self, rhs),
    {
        vector(
            self.y.mul(rhs.z).sub(self.z.mul(rhs.y)),
            self.z.mul(rhs.x).sub(self.x.mul(rhs.z)),
            self.x.mul(rhs.y).sub(self.y.mul(rhs.x)),
        )
    }

    /// Reflection about a surface normal.
    pub fn reflect(&self, normal: Tuple) -> (r: Tuple)
        ensures
            r == t_reflect(*self, normal),
    {
        let d = self.dot(normal);
        self.sub(normal.mul(Fx::from_int(2)).mul(d))
    }
}

/// A point: a tuple whose `w` is one.
pub fn point(x: Fx, y: Fx, z: Fx) -> (r: Tuple)
    ensures
        r == (Tuple { x, y, z, w: Fx { m: SCALE } }),
{
    Tuple { x, y, z, w: Fx { m: SCALE } }
}

/// A vector: a tuple whose `w` is zero.
pub fn vector(x: Fx, y: Fx, z: Fx) -> (r: Tuple)
    ensures
        r == (Tuple { x, y, z, w: Fx { m: 0 } }),
{
    Tuple { x, y, z, w: Fx { m: 0 } }
}

} // verus!
