//! Procedural color patterns: pure functions from a pattern-space point to
//! a color. Sampling a pattern on a shape maps the world point through the
//! shape's inverse transform, then through the pattern's own.

use crate::color::{c_add, c_scale, c_sub, Color};
use crate::fixed::{floor_m, sat_m, Fx, SCALE};
use crate::matrix::{inv4, inv4_ok, mat4_id, mat4_near, m4_tuple, Mat4x4, EQ_TOL};
use crate::shape::Shape;
use crate::tuple::{fx_add, fx_mul, fx_sqrt, fx_sub, Tuple};
use vstd::prelude::*;

verus! {

/// The floor of a scalar, as a scalar: whole units, saturated.
pub open spec fn floor_fx(a: Fx) -> Fx {
    Fx { m: sat_m(floor_m(a.m as int) * (SCALE as int)) as i64 }
}

/// Stripes alternate along `x`: the first color on even floors of `x`.
pub open spec fn stripe_color_at(a: Color, b: Color, p: Tuple) -> Color {
    if floor_m(p.x.m as int) % 2 == 0 {
        a
    } else {
        b
    }
}

/// A gradient blends from the first color toward the second by the
/// fractional part of `x`.
pub open spec fn gradient_color_at(a: Color, b: Color, p: Tuple) -> Color {
    c_add(a, c_scale(c_sub(b, a), fx_sub(p.x, floor_fx(p.x))))
}

/// Rings alternate with the floor of the radial distance in the `x`-`z`
/// plane.
pub open spec fn ring_color_at(a: Color, b: Color, p: Tuple) -> Color {
    let fac = fx_sqrt(fx_add(fx_mul(p.x, p.x), fx_mul(p.z, p.z)));
    if floor_m(fac.m as int) % 2 == 0 {
        a
    } else {
        b
    }
}

/// Checkers alternate with the parity of the summed floors of all three
/// coordinates.
pub open spec fn checker_color_at(a: Color, b: Color, p: Tuple) -> Color {
    if (floor_m(p.x.m as int) + floor_m(p.y.m as int) + floor_m(p.z.m as int)) % 2 == 0 {
        a
    } else {
        b
    }
}

/// The whole units below a scalar, as a scalar value.
fn floor_fx_exec(a: Fx) -> (r: Fx)
    ensures
        r == floor_fx(a),
{
    let u = a.floor_units();
    proof {
        crate::fixed::lemma_mul_bound_i64(u as int, SCALE as int);
    }
    let p: i128 = (u as i128) * (SCALE as i128);
    Fx { m: crate::fixed::sat128(p) }
}

/// A striped pattern: two colors alternating along `x`.
#[derive(Clone, Copy, Debug)]
pub struct StripedPattern {
    pub a: Color,
    pub b: Color,
    pub transform: Mat4x4,
}

/// A gradient pattern: a linear blend along `x`.
#[derive(Clone, Copy, Debug)]
pub struct GradientPattern {
    pub a: Color,
    pub b: Color,
    pub transform: Mat4x4,
}

/// A ring pattern: concentric rings in the `x`-`z` plane.
#[derive(Clone, Copy, Debug)]
pub struct RingPattern {
    pub a: Color,
    pub b: Color,
    pub transform: Mat4x4,
}

/// A checker pattern: alternating cubes.
#[derive(Clone, Copy, Debug)]
pub struct CheckerPattern {
    pub a: Color,
    pub b: Color,
    pub transform: Mat4x4,
}

impl StripedPattern {
    /// A stripe pattern of two colors with the identity transform.
    pub fn new(a: Color, b: Color) -> (r: StripedPattern)
        ensures
            r == (StripedPattern { a, b, transform: mat4_id() }),
    {
        StripedPattern { a, b, transform: Mat4x4::identity() }
    }

    /// The pattern color at a pattern-space point.
    pub fn color_at(&self, p: Tuple) -> (r: Color)
        ensures
            r == stripe_color_at(self.a, self.b, p),
    {
        if p.x.floor_is_even() {
            self.a
        } else {
            self.b
        }
    }
}

impl GradientPattern {
    /// A gradient pattern of two colors with the identity transform.
    pub fn new(a: Color, b: Color) -> (r: GradientPattern)
        ensures
            r == (GradientPattern { a, b, transform: mat4_id() }),
    {
        GradientPattern { a, b, transform: Mat4x4::identity() }
    }

    /// The pattern color at a pattern-space point.
    pub fn color_at(&self, p: Tuple) -> (r: Color)
        ensures
            r == gradient_color_at(self.a, self.b, p),
    {
        let distance = self.b.sub(self.a);
        let fraction = p.x.sub(floor_fx_exec(p.x));
        self.a.add(distance.scale(fraction))
    }
}

impl RingPattern {
    /// A ring pattern of two colors with the identity transform.
    pub fn new(a: Color, b: Color) -> (r: RingPattern)
        ensures
            r == (RingPattern { a, b, transform: mat4_id() }),
    {
        RingPattern { a, b, transform: Mat4x4::identity() }
    }

    /// The pattern color at a pattern-space point.
    pub fn color_at(&self, p: Tuple) -> (r: Color)
        ensures
            r == ring_color_at(self.a, self.b, p),
    {
        let fac = p.x.mul(p.x).add(p.z.mul(p.z)).sqrt();
        if fac.floor_is_even() {
            self.a
        } else {
            self.b
        }
    }
}

impl CheckerPattern {
    /// A checker pattern of two colors with the identity transform.
    pub fn new(a: Color, b: Color) -> (r: CheckerPattern)
        ensures
            r == (CheckerPattern { a, b, transform: mat4_id() }),
    {
        CheckerPattern { a, b, transform: Mat4x4::identity() }
    }

    /// The pattern color at a pattern-space point.
    pub fn color_at(&self, p: Tuple) -> (r: Color)
        ensures
            r == checker_color_at(self.a, self.b, p),
    {
        let fx = p.x.floor_units();
        let fy = p.y.floor_units();
        let fz = p.z.floor_units();
        proof {
            crate::fixed::lemma_floor_units_range(p.x.m as int);
            crate::fixed::lemma_floor_units_range(p.y.m as int);
            crate::fixed::lemma_floor_units_range(p.z.m as int);
        }
        if crate::fixed::i64_is_even(fx + fy + fz) {
            self.a
        } else {
            self.b
        }
    }
}

/// A pattern of any kind.
#[derive(Clone, Copy, Debug)]
pub enum Pattern {
    Stripe(StripedPattern),
    Gradient(GradientPattern),
    Ring(RingPattern),
    Checker(CheckerPattern),
}

/// The transform a pattern carries.
pub open spec fn pattern_transform(p: Pattern) -> Mat4x4 {
    match p {
        Pattern::Stripe(s) => s.transform,
        Pattern::Gradient(g) => g.transform,
        Pattern::Ring(r) => r.transform,
        Pattern::Checker(c) => c.transform,
    }
}

/// The color of a pattern at a pattern-space point.
pub open spec fn pattern_color_at(p: Pattern, pt: Tuple) -> Color {
    match p {
        Pattern::Stripe(s) => stripe_color_at(s.a, s.b, pt),
        Pattern::Gradient(g) => gradient_color_at(g.a, g.b, pt),
        Pattern::Ring(r) => ring_color_at(r.a, r.b, pt),
        Pattern::Checker(c) => checker_color_at(c.a, c.b, pt),
    }
}

/// The color a pattern shows on a shape at a world point: the point is
/// carried into object space by the shape's inverse transform, then into
/// pattern space by the pattern's own inverse.
pub open spec fn pattern_color_at_object(p: Pattern, shape: Shape, wp: Tuple) -> Color {
    let object_point = m4_tuple(inv4(shape.transform), wp);
    let pattern_point = m4_tuple(inv4(pattern_transform(p)), object_point);
    pattern_color_at(p, pattern_point)
}

/// Pattern equality: the same kind, equal colors, and transforms within the
/// matrix tolerance.
pub open spec fn pattern_eq(p: Pattern, q: Pattern) -> bool {
    match (p, q) {
        (Pattern::Stripe(a), Pattern::Stripe(b)) => a.a == b.a && a.b == b.b && mat4_near(
            a.transform,
            b.transform,
            EQ_TOL as int,
        ),
        (Pattern::Gradient(a), Pattern::Gradient(b)) => a.a == b.a && a.b == b.b && mat4_near(
            a.transform,
            b.transform,
            EQ_TOL as int,
        ),
        (Pattern::Ring(a), Pattern::Ring(b)) => a.a == b.a && a.b == b.b && mat4_near(
            a.transform,
            b.transform,
            EQ_TOL as int,
        ),
        (Pattern::Checker(a), Pattern::Checker(b)) => a.a == b.a && a.b == b.b && mat4_near(
            a.transform,
            b.transform,
            EQ_TOL as int,
        ),
        _ => false,
    }
}

impl Pattern {
    /// The transform the pattern carries.
    pub fn transform(&self) -> (r: Mat4x4)
        ensures
            r == pattern_transform(*self),
    {
        match self {
            Pattern::Stripe(s) => s.transform,
            Pattern::Gradient(g) => g.transform,
            Pattern::Ring(rp) => rp.transform,
            Pattern::Checker(c) => c.transform,
        }
    }

    /// The color the pattern shows on a shape at a world point.
    pub fn color_at_object(&self, shape: &Shape, world_point: Tuple) -> (r: Color)
        requires
            inv4_ok(shape.transform),
            inv4_ok(pattern_transform(*self)),
        ensures
            r == pattern_color_at_object(*self, *shape, world_point),
    {
        let object_point = shape.transform.inverse().unwrap().mul_tuple(world_point);
        match self {
            Pattern::Stripe(s) => {
                let pattern_point = s.transform.inverse().unwrap().mul_tuple(object_point);
                s.color_at(pattern_point)
            },
            Pattern::Gradient(g) => {
                let pattern_point = g.transform.inverse().unwrap().mul_tuple(object_point);
                g.color_at(pattern_point)
            },
            Pattern::Ring(r) => {
                let pattern_point = r.transform.inverse().unwrap().mul_tuple(object_point);
                r.color_at(pattern_point)
            },
            Pattern::Checker(c) => {
                let pattern_point = c.transform.inverse().unwrap().mul_tuple(object_point);
                c.color_at(pattern_point)
            },
        }
    }
}

impl PartialEq for Pattern {
    /// The same kind, equal colors, transforms within the matrix tolerance.
    fn eq(&self, other: &Pattern) -> (r: bool) {
        match (self, other) {
            (Pattern::Stripe(a), Pattern::Stripe(b)) => a.a == b.a && a.b == b.b && a.transform
                == b.transform,
            (Pattern::Gradient(a), Pattern::Gradient(b)) => a.a == b.a && a.b == b.b && a.transform
                == b.transform,
            (Pattern::Ring(a), Pattern::Ring(b)) => a.a == b.a && a.b == b.b && a.transform
                == b.transform,
            (Pattern::Checker(a), Pattern::Checker(b)) => a.a == b.a && a.b == b.b && a.transform
                == b.transform,
            _ => false,
        }
    }
}

impl vstd::std_specs::cmp::PartialEqSpecImpl for Pattern {
    open spec fn obeys_eq_spec() -> bool {
        true
    }

    open spec fn eq_spec(&self, other: &Pattern) -> bool {
        pattern_eq(*self, *other)
    }
}

impl Eq for Pattern {}

} // verus!
