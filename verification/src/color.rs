//! RGB colors over the fixed-point scalar; components are not clamped
//! inside the pipeline.

use crate::fixed::Fx;
use crate::fixed::SCALE;
use crate::tuple::{fx_add, fx_mul, fx_sub};
use vstd::prelude::*;

verus! {

/// An RGB color; components may leave `[0, 1]` during shading.
#[derive(Clone, Copy, Debug, PartialEq, Eq, Structural)]
pub struct Color {
    pub r: Fx,
    pub g: Fx,
    pub b: Fx,
}

/// Componentwise sum.
pub open spec fn c_add(a: Color, b: Color) -> Color {
    Color { r: fx_add(a.r, b.r), g: fx_add(a.g, b.g), b: fx_add(a.b, b.b) }
}

/// Componentwise difference.
pub open spec fn c_sub(a: Color, b: Color) -> Color {
    Color { r: fx_sub(a.r, b.r), g: fx_sub(a.g, b.g), b: fx_sub(a.b, b.b) }
}

/// Componentwise (Hadamard) product.
pub open spec fn c_mul(a: Color, b: Color) -> Color {
    Color { r: fx_mul(a.r, b.r), g: fx_mul(a.g, b.g), b: fx_mul(a.b, b.b) }
}

/// Each component scaled by a scalar.
pub open spec fn c_scale(a: Color, k: Fx) -> Color {
    Color { r: fx_mul(a.r, k), g: fx_mul(a.g, k), b: fx_mul(a.b, k) }
}

/// The black color, all components zero.
pub open spec fn black_s() -> Color {
    Color { r: Fx { m: 0 }, g: Fx { m: 0 }, b: Fx { m: 0 } }
}

impl Color {
    /// A color from its components.
    pub fn new(r: Fx, g: Fx, b: Fx) -> (c: Color)
        ensures
            c == (Color { r, g, b }),
    {
        Color { r, g, b }
    }

    /// Black: all components zero.
    pub fn black() -> (c: Color)
        ensures
            c == black_s(),
    {
        Color { r: Fx { m: 0 }, g: Fx { m: 0 }, b: Fx { m: 0 } }
    }

    /// White: all components one.
    pub fn white() -> (c: Color)
        ensures
            c == (Color { r: Fx { m: SCALE }, g: Fx { m: SCALE }, b: Fx { m: SCALE } }),
    {
        Color { r: Fx { m: SCALE }, g: Fx { m: SCALE }, b: Fx { m: SCALE } }
    }

    /// Componentwise sum.
    pub fn add(self, other: Color) -> (c: Color)
        ensures
            c == c_add(self, other),
    {
        Color { r: self.r.add(other.r), g: self.g.add(other.g), b: self.b.add(other.b) }
    }

    /// Componentwise difference.
    pub fn sub(self, other: Color) -> (c: Color)
        ensures
            c == c_sub(self, other),
    {
        Color { r: self.r.sub(other.r), g: self.g.sub(other.g), b: self.b.sub(other.b) }
    }

    /// Componentwise product.
    pub fn mul(self, other: Color) -> (c: Color)
        ensures
            c == c_mul(self, other),
    {
        Color { r: self.r.mul(other.r), g: self.g.mul(other.g), b: self.b.mul(other.b) }
    }

    /// Each component scaled by a scalar.
    pub fn scale(self, k: Fx) -> (c: Color)
        ensures
            c == c_scale(self, k),
    {
        Color { r: self.r.mul(k), g: self.g.mul(k), b: self.b.mul(k) }
    }
}

} // verus!
