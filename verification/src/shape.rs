//! Geometric primitives: a closed tagged union over the primitive kinds,
//! each instance carrying its object-to-world transform and material.
//!
//! Every query transforms its input into object space through the inverse
//! of the shape's transform, runs the primitive's local algorithm there,
//! and carries normals back through the transpose of that inverse, forcing
//! the result's `w` to zero and renormalizing.

use crate::fixed::{Fx, SCALE};
use crate::intersections::Intersection;
use crate::materials::{material_default_s, mat_eq, Material};
use crate::matrix::{inv4, inv4_ok, mat4_id, m4_tuple, mat4_near, tr4, Mat4x4, EQ_TOL};
use crate::ray::{m4_ray, Ray};
use crate::tuple::{
    fx_add, fx_div, fx_mul, fx_neg, fx_sqrt, fx_sub, point, t_dot, t_normalize, t_sub, vector,
    Tuple,
};
use vstd::prelude::*;

verus! {

/// The primitive kinds.
#[derive(Clone, Copy, Debug, PartialEq, Eq, Structural)]
pub enum ShapeType {
    Sphere,
    Plane,
}

/// A primitive with its object-to-world transform and material.
#[derive(Clone, Copy, Debug)]
pub struct Shape {
    pub shape: ShapeType,
    pub transform: Mat4x4,
    pub material: Material,
}

/// Shape equality: same kind, transforms within the matrix tolerance, and
/// equal materials.
pub open spec fn shape_eq(a: Shape, b: Shape) -> bool {
    &&& a.shape == b.shape
    &&& mat4_near(a.transform, b.transform, EQ_TOL as int)
    &&& mat_eq(a.material, b.material)
}

impl PartialEq for Shape {
    /// Same kind, transforms within the matrix tolerance, equal materials.
    fn eq(&self, other: &Shape) -> (r: bool) {
        self.shape == other.shape && self.transform == other.transform && self.material
            == other.material
    }
}

impl vstd::std_specs::cmp::PartialEqSpecImpl for Shape {
    open spec fn obeys_eq_spec() -> bool {
        true
    }

    open spec fn eq_spec(&self, other: &Shape) -> bool {
        shape_eq(*self, *other)
    }
}

impl Eq for Shape {}

/// The origin point.
pub open spec fn origin_s() -> Tuple {
    Tuple { x: Fx { m: 0 }, y: Fx { m: 0 }, z: Fx { m: 0 }, w: Fx { m: SCALE } }
}

/// The local normal of the unit sphere at a local point: the point minus
/// the origin.
pub open spec fn sphere_normal_s(lp: Tuple) -> Tuple {
    t_sub(lp, origin_s())
}

/// The local normal of the plane `y == 0`.
pub open spec fn plane_normal_s() -> Tuple {
    Tuple { x: Fx { m: 0 }, y: Fx { m: SCALE }, z: Fx { m: 0 }, w: Fx { m: 0 } }
}

/// The world normal of a shape at a point: the local normal carried back
/// by the transposed inverse transform, its `w` forced to zero, normalized.
pub open spec fn shape_normal(s: Shape, p: Tuple) -> Tuple {
    let tinv = inv4(s.transform);
    let lp = m4_tuple(tinv, p);
    let ln = match s.shape {
        ShapeType::Sphere => sphere_normal_s(lp),
        ShapeType::Plane => plane_normal_s(),
    };
    let wn = m4_tuple(tr4(tinv), ln);
    t_normalize(Tuple { x: wn.x, y: wn.y, z: wn.z, w: Fx { m: 0 } })
}

/// The `a` coefficient of the sphere quadratic: `dir . dir`.
pub open spec fn sph_a(r: Ray) -> Fx {
    t_dot(r.direction, r.direction)
}

/// The `b` coefficient: `2 * (dir . (origin - center))`.
pub open spec fn sph_b(r: Ray) -> Fx {
    fx_mul(Fx { m: 20_000_000_000_000 }, t_dot(r.direction, t_sub(r.origin, origin_s())))
}

/// The `c` coefficient: `(origin - center) . (origin - center) - 1`.
pub open spec fn sph_c(r: Ray) -> Fx {
    fx_sub(
        t_dot(t_sub(r.origin, origin_s()), t_sub(r.origin, origin_s())),
        Fx { m: SCALE },
    )
}

/// The discriminant `b*b - 4*a*c` of the sphere quadratic.
pub open spec fn sph_disc(r: Ray) -> Fx {
    fx_sub(
        fx_mul(sph_b(r), sph_b(r)),
        fx_mul(fx_mul(Fx { m: 40_000_000_000_000 }, sph_a(r)), sph_c(r)),
    )
}

/// The smaller root `(-b - sqrt(disc)) / (2a)`.
pub open spec fn sph_t1(r: Ray) -> Fx {
    fx_div(fx_sub(fx_neg(sph_b(r)), fx_sqrt(sph_disc(r))), fx_mul(Fx { m: 20_000_000_000_000 }, sph_a(r)))
}

/// The larger root `(-b + sqrt(disc)) / (2a)`.
pub open spec fn sph_t2(r: Ray) -> Fx {
    fx_div(fx_add(fx_neg(sph_b(r)), fx_sqrt(sph_disc(r))), fx_mul(Fx { m: 20_000_000_000_000 }, sph_a(r)))
}

/// The intersections of a local-space ray with the unit sphere: none when
/// the discriminant is negative, else both roots in order.
pub open spec fn sphere_hits(s: Shape, lr: Ray) -> Seq<Intersection> {
    if sph_disc(lr).m < 0 {
        Seq::empty()
    } else {
        seq![
            Intersection { t: sph_t1(lr), shape: s },
            Intersection { t: sph_t2(lr), shape: s },
        ]
    }
}

/// The parameter of a local-space ray meeting the plane `y == 0`.
pub open spec fn plane_t(lr: Ray) -> Fx {
    fx_div(fx_neg(lr.origin.y), lr.direction.y)
}

/// The intersections of a local-space ray with the plane `y == 0`: none
/// when the ray runs parallel to it at this precision.
pub open spec fn plane_hits(s: Shape, lr: Ray) -> Seq<Intersection> {
    if lr.direction.y.m == 0 {
        Seq::empty()
    } else {
        seq![Intersection { t: plane_t(lr), shape: s }]
    }
}

/// The intersections of a world-space ray with a shape: the ray is carried
/// into object space by the inverse transform, then meets the primitive.
pub open spec fn shape_hits(s: Shape, ray: Ray) -> Seq<Intersection> {
    let lr = m4_ray(inv4(s.transform), ray);
    match s.shape {
        ShapeType::Sphere => sphere_hits(s, lr),
        ShapeType::Plane => plane_hits(s, lr),
    }
}

impl Shape {
    /// A shape of the given kind with the identity transform and the
    /// default material.
    pub fn new(shape: ShapeType) -> (r: Shape)
        ensures
            r == (Shape { shape, transform: mat4_id(), material: material_default_s() }),
    {
        Shape { shape, transform: Mat4x4::identity(), material: Material::new() }
    }

    /// The world-space surface normal at a point.
    pub fn normal(&self, p: Tuple) -> (r: Tuple)
        requires
            inv4_ok(self.transform),
        ensures
            r == shape_normal(*self, p),
    {
        let tinv = self.transform.inverse().unwrap();
        let local_point = tinv.mul_tuple(p);
        let local_normal = match self.shape {
            ShapeType::Sphere => calculate_sphere_normal(local_point),
            ShapeType::Plane => calculate_plane_normal(),
        };
        let wn = tinv.transpose().mul_tuple(local_normal);
        let world_normal = Tuple { x: wn.x, y: wn.y, z: wn.z, w: Fx { m: 0 } };
        world_normal.normalize()
    }

    /// The intersections of a world-space ray with this shape.
    pub fn intersect(&self, ray: Ray) -> (r: Vec<Intersection>)
        requires
            inv4_ok(self.transform),
        ensures
            r@ == shape_hits(*self, ray),
    {
        let local_ray = self.transform.inverse().unwrap().mul_ray(ray);
        match self.shape {
            ShapeType::Sphere => intersect_sphere(self, local_ray),
            ShapeType::Plane => intersect_plane(self, local_ray),
        }
    }
}

/// A unit sphere of glass: full transparency, refractive index 1.5.
pub fn glass_sphere() -> (r: Shape)
    ensures
        r == (Shape {
            shape: ShapeType::Sphere,
            transform: mat4_id(),
            material: Material {
                transparency: Fx { m: SCALE },
                refractive_index: Fx { m: 15_000_000_000_000 },
                ..material_default_s()
            },
        }),
{
    let mut s = Shape::new(ShapeType::Sphere);
    s.material.transparency = Fx { m: SCALE };
    s.material.refractive_index = Fx { m: 15_000_000_000_000 };
    s
}

/// The local normal of the unit sphere at a local point.
pub fn calculate_sphere_normal(p: Tuple) -> (r: Tuple)
    ensures
        r == sphere_normal_s(p),
{
    let z = Fx { m: 0 };
    p.sub(point(z, z, z))
}

/// The constant local normal of the plane.
pub fn calculate_plane_normal() -> (r: Tuple)
    ensures
        r == plane_normal_s(),
{
    let z = Fx { m: 0 };
    vector(z, Fx { m: SCALE }, z)
}

/// The intersections of a local-space ray with the unit sphere.
pub fn intersect_sphere(shape: &Shape, ray: Ray) -> (r: Vec<Intersection>)
    ensures
        r@ == sphere_hits(*shape, ray),
{
    let z = Fx { m: 0 };
    let sphere_to_ray = ray.origin.sub(point(z, z, z));
    let a = ray.direction.dot(ray.direction);
    let b = Fx::from_int(2).mul(ray.direction.dot(sphere_to_ray));
    let c = sphere_to_ray.dot(sphere_to_ray).sub(Fx::one());

    let discriminant = b.mul(b).sub(Fx::from_int(4).mul(a).mul(c));

    if discriminant.m < 0 {
        let r: Vec<Intersection> = Vec::new();
        proof {
            assert(r@ =~= sphere_hits(*shape, ray));
        }
        return r;
    }

    let t1 = b.neg().sub(discriminant.sqrt()).div(Fx::from_int(2).mul(a));
    let t2 = b.neg().add(discriminant.sqrt()).div(Fx::from_int(2).mul(a));

    let mut r: Vec<Intersection> = Vec::new();
    r.push(Intersection { t: t1, shape: *shape });
    r.push(Intersection { t: t2, shape: *shape });
    proof {
        assert(r@ =~= sphere_hits(*shape, ray));
    }
    r
}

/// The intersections of a local-space ray with the plane `y == 0`.
pub fn intersect_plane(shape: &Shape, ray: Ray) -> (r: Vec<Intersection>)
    ensures
        r@ == plane_hits(*shape, ray),
{
    if ray.direction.y.m != 0 {
        let t = ray.origin.y.neg().div(ray.direction.y);
        let mut r: Vec<Intersection> = Vec::new();
        r.push(Intersection { t, shape: *shape });
        proof {
            assert(r@ =~= plane_hits(*shape, ray));
        }
        r
    } else {
        let r: Vec<Intersection> = Vec::new();
        proof {
            assert(r@ =~= plane_hits(*shape, ray));
        }
        r
    }
}

} // verus!
