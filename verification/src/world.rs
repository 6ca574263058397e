//! The scene: one point light and the shapes, with hit resolution, the
//! precomputed hit state, and the recursive shading pipeline.

use crate::color::{black_s, c_add, c_scale, Color};
use crate::fixed::{pow_m, Fx, SCALE};
use crate::intersections::{hit, is_hit, no_hit, Intersection};
use crate::lights::PointLight;
use crate::materials::{lighting_s, lighting_wf, material_default_s, Material};
use crate::matrix::{inv4_ok, mat4_id, mat4_mul_s};
use crate::ray::{ray_position, Ray};
use crate::shape::{shape_eq, shape_hits, shape_normal, Shape, ShapeType};
use crate::transform::scale_s;
use crate::tuple::{
    fx_add, fx_div, fx_mul, fx_sqrt, fx_sub, point, t_add, t_dot, t_magnitude, t_mul, t_neg,
    t_normalize, t_reflect, t_sub, Tuple,
};
use vstd::multiset::Multiset;
use vstd::prelude::*;

verus! {

broadcast use vstd::seq_lib::group_to_multiset_ensures;

/// The scene: a single light and an ordered collection of shapes.
pub struct World {
    pub light: PointLight,
    pub shapes: Vec<Shape>,
}

/// A world is well formed when every shape's transform is invertible and
/// every material's pattern, if any, can be sampled on its shape.
pub open spec fn world_wf(w: World) -> bool {
    forall|i: int|
        0 <= i < w.shapes@.len() ==> inv4_ok((#[trigger] w.shapes@[i]).transform) && lighting_wf(
            w.shapes@[i].material,
            w.shapes@[i],
        )
}

/// Every intersection the first `n` shapes produce on a ray, in shape
/// order.
pub open spec fn hits_upto(shapes: Seq<Shape>, ray: Ray, n: int) -> Seq<Intersection>
    decreases n,
{
    if n <= 0 {
        Seq::empty()
    } else {
        hits_upto(shapes, ray, n - 1) + shape_hits(shapes[n - 1], ray)
    }
}

/// Every intersection the world's shapes produce on a ray.
pub open spec fn world_hits(w: World, ray: Ray) -> Seq<Intersection> {
    hits_upto(w.shapes@, ray, w.shapes@.len() as int)
}

/// Non-decreasing in `t`.
pub open spec fn sorted_by_t(xs: Seq<Intersection>) -> bool {
    forall|i: int, j: int| 0 <= i <= j < xs.len() ==> (#[trigger] xs[i]).t.m <= (#[trigger] xs[j]).t.m
}

/// Whether some shape of the world stands between the point and the light:
/// some intersection of the shadow ray lies at a non-negative `t` closer
/// than the light.
pub open spec fn shadowed_s(w: World, p: Tuple) -> bool {
    let direction = t_sub(w.light.position, p);
    let distance = t_magnitude(direction);
    let xs = world_hits(w, Ray { origin: p, direction: t_normalize(direction) });
    exists|i: int| 0 <= i < xs.len() && 0 <= (#[trigger] xs[i]).t.m < distance.m
}

/// Every hit a well-formed world produces carries a shape of the world, so
/// its transform is invertible and its material can be lit.
#[verifier::rlimit(100)]
proof fn lemma_hits_upto_wf(shapes: Seq<Shape>, ray: Ray, n: int)
    requires
        n <= shapes.len(),
        forall|i: int|
            0 <= i < shapes.len() ==> inv4_ok((#[trigger] shapes[i]).transform) && lighting_wf(
                shapes[i].material,
                shapes[i],
            ),
    ensures
        forall|i: int|
            0 <= i < hits_upto(shapes, ray, n).len() ==> inv4_ok(
                (#[trigger] hits_upto(shapes, ray, n)[i]).shape.transform,
            ) && lighting_wf(
                hits_upto(shapes, ray, n)[i].shape.material,
                hits_upto(shapes, ray, n)[i].shape,
            ),
    decreases n,
{
    if n > 0 {
        lemma_hits_upto_wf(shapes, ray, n - 1);
        assert forall|i: int| 0 <= i < hits_upto(shapes, ray, n).len() implies inv4_ok(
            (#[trigger] hits_upto(shapes, ray, n)[i]).shape.transform,
        ) && lighting_wf(
            hits_upto(shapes, ray, n)[i].shape.material,
            hits_upto(shapes, ray, n)[i].shape,
        ) by {
            let prefix = hits_upto(shapes, ray, n - 1);
            if i >= prefix.len() {
                let sh = shape_hits(shapes[n - 1], ray);
                assert(hits_upto(shapes, ray, n)[i] == sh[i - prefix.len()]);
                assert(sh[i - prefix.len()].shape == shapes[n - 1]);
            }
        };
    }
}

/// Two sequences holding the same intersections hold the same candidates:
/// in-front-and-closer-than-`d` witnesses and all-behind judgments carry
/// over.
proof fn lemma_multiset_transfer(a: Seq<Intersection>, b: Seq<Intersection>, d: i64)
    requires
        a.to_multiset() == b.to_multiset(),
    ensures
        (exists|i: int| 0 <= i < a.len() && 0 <= (#[trigger] a[i]).t.m < d) <==> (exists|i: int|
            0 <= i < b.len() && 0 <= (#[trigger] b[i]).t.m < d),
        no_hit(a) <==> no_hit(b),
{
    assert forall|x: Intersection| a.contains(x) implies b.contains(x) by {
        assert(a.to_multiset().count(x) > 0);
    };
    assert forall|x: Intersection| b.contains(x) implies a.contains(x) by {
        assert(b.to_multiset().count(x) > 0);
    };
    if exists|i: int| 0 <= i < a.len() && 0 <= (#[trigger] a[i]).t.m < d {
        let i = choose|i: int| 0 <= i < a.len() && 0 <= (#[trigger] a[i]).t.m < d;
        assert(a.contains(a[i]));
        assert(b.contains(a[i]));
    }
    if exists|i: int| 0 <= i < b.len() && 0 <= (#[trigger] b[i]).t.m < d {
        let i = choose|i: int| 0 <= i < b.len() && 0 <= (#[trigger] b[i]).t.m < d;
        assert(b.contains(b[i]));
        assert(a.contains(b[i]));
    }
    if no_hit(a) {
        assert forall|i: int| 0 <= i < b.len() implies (#[trigger] b[i]).t.m < 0 by {
            assert(b.contains(b[i]));
            let j = choose|j: int| 0 <= j < a.len() && a[j] == b[i];
        };
    }
    if no_hit(b) {
        assert forall|i: int| 0 <= i < a.len() implies (#[trigger] a[i]).t.m < 0 by {
            assert(a.contains(a[i]));
            let j = choose|j: int| 0 <= j < b.len() && b[j] == a[i];
        };
    }
}

/// The position of the first least-`t` intersection.
pub open spec fn min_index(xs: Seq<Intersection>) -> int
    recommends
        xs.len() > 0,
    decreases xs.len(),
{
    if xs.len() <= 1 {
        0
    } else {
        let r = 1 + min_index(xs.drop_first());
        if xs[r].t.m < xs[0].t.m {
            r
        } else {
            0
        }
    }
}

/// The first least position lies in range.
pub proof fn lemma_min_index_range(xs: Seq<Intersection>)
    requires
        xs.len() > 0,
    ensures
        0 <= min_index(xs) < xs.len(),
    decreases xs.len(),
{
    if xs.len() > 1 {
        lemma_min_index_range(xs.drop_first());
    }
}

/// How the first least position moves when an element is appended: it
/// jumps to the end exactly when the new element is strictly least.
proof fn lemma_min_index_push(s: Seq<Intersection>, x: Intersection)
    requires
        s.len() > 0,
    ensures
        0 <= min_index(s) < s.len(),
        min_index(s.push(x)) == if x.t.m < s[min_index(s)].t.m {
            s.len() as int
        } else {
            min_index(s)
        },
    decreases s.len(),
{
    lemma_min_index_range(s);
    let sp = s.drop_first();
    assert(s.push(x).drop_first() =~= sp.push(x));
    if s.len() == 1 {
        assert(sp.push(x) =~= seq![x]);
        assert(min_index(sp.push(x)) == 0);
    } else {
        lemma_min_index_push(sp, x);
    }
}

/// Sorting by repeatedly extracting the first least intersection.
pub open spec fn sel_sort(xs: Seq<Intersection>) -> Seq<Intersection>
    decreases xs.len(),
    via sel_sort_decreases
{
    if xs.len() == 0 {
        Seq::empty()
    } else {
        let k = min_index(xs);
        seq![xs[k]] + sel_sort(xs.remove(k))
    }
}

#[via_fn]
proof fn sel_sort_decreases(xs: Seq<Intersection>) {
    if xs.len() > 0 {
        lemma_min_index_range(xs);
    }
}

/// Sorts intersections by `t`, ascending: repeatedly extracts the first
/// least element, which keeps candidates and loses none.
fn sort_by_t_exec(xs: Vec<Intersection>) -> (r: Vec<Intersection>)
    ensures
        r@ == sel_sort(xs@),
        sorted_by_t(r@),
        r@.to_multiset() == xs@.to_multiset(),
{
    let mut src = xs;
    let ghost orig = src@;
    let mut out: Vec<Intersection> = Vec::new();
    proof {
        assert(out@.to_multiset().add(src@.to_multiset()) =~= orig.to_multiset());
        assert(out@ + sel_sort(src@) =~= sel_sort(orig));
    }
    while src.len() > 0
        invariant
            out@.to_multiset().add(src@.to_multiset()) == orig.to_multiset(),
            sel_sort(orig) == out@ + sel_sort(src@),
            sorted_by_t(out@),
            forall|i: int, j: int|
                0 <= i < out@.len() && 0 <= j < src@.len() ==> (#[trigger] out@[i]).t.m <= (
                #[trigger] src@[j]).t.m,
        decreases src.len(),
    {
        let mut k: usize = 0;
        let mut mi: usize = 0;
        while k < src.len()
            invariant
                src@.len() > 0,
                k <= src@.len(),
                mi < src@.len(),
                mi <= k,
                forall|j: int| 0 <= j < k ==> src@[mi as int].t.m <= (#[trigger] src@[j]).t.m,
                k == 0 ==> mi == 0,
                k >= 1 ==> mi as int == min_index(src@.take(k as int)),
            decreases src.len() - k,
        {
            let ghost prefix = src@.take(k as int);
            proof {
                if k >= 1 {
                    lemma_min_index_push(prefix, src@[k as int]);
                    assert(src@.take(k as int + 1) =~= prefix.push(src@[k as int]));
                    assert(prefix[mi as int] == src@[mi as int]);
                } else {
                    assert(src@.take(1) =~= seq![src@[0]]);
                }
            }
            if src[k].t.m < src[mi].t.m {
                mi = k;
            }
            k += 1;
        }
        proof {
            assert(src@.take(src@.len() as int) =~= src@);
            assert(mi as int == min_index(src@));
        }
        let ghost src_before = src@;
        let ghost out_before = out@;
        let v = src.remove(mi);
        out.push(v);
        proof {
            assert(sel_sort(src_before) == seq![src_before[min_index(src_before)]] + sel_sort(
                src_before.remove(min_index(src_before)),
            ));
            assert(out_before + seq![v] =~= out_before.push(v));
            assert(sel_sort(orig) == out@ + sel_sort(src@)) by {
                assert(out_before + (seq![v] + sel_sort(src@)) =~= (out_before + seq![v])
                    + sel_sort(src@));
            };
            assert(src_before.contains(src_before[mi as int]));
            assert(src_before.to_multiset().count(v) > 0);
            assert(src@.to_multiset() =~= src_before.to_multiset().remove(v));
            assert(out@ =~= out_before.push(v));
            assert(out@.to_multiset() =~= out_before.to_multiset().insert(v));
            assert(out@.to_multiset().add(src@.to_multiset()) =~= orig.to_multiset());
            assert forall|i: int, j: int|
                0 <= i < out@.len() && 0 <= j < src@.len() implies (#[trigger] out@[i]).t.m <= (
            #[trigger] src@[j]).t.m by {
                assert(src@[j] == src_before.remove(mi as int)[j]);
                if j < mi {
                    assert(src@[j] == src_before[j]);
                } else {
                    assert(src@[j] == src_before[j + 1]);
                }
            };
        }
    }
    proof {
        assert(src@.to_multiset() =~= Multiset::empty());
        assert(out@.to_multiset() =~= orig.to_multiset());
        assert(out@ + sel_sort(src@) =~= out@);
    }
    out
}

impl World {
    /// An empty world with a white light at `(-10, 10, -10)`.
    pub fn new() -> (r: World)
        ensures
            r.light == (PointLight {
                intensity: Color { r: Fx { m: SCALE }, g: Fx { m: SCALE }, b: Fx { m: SCALE } },
                position: Tuple {
                    x: Fx { m: -100_000_000_000_000i64 },
                    y: Fx { m: 100_000_000_000_000 },
                    z: Fx { m: -100_000_000_000_000i64 },
                    w: Fx { m: SCALE },
                },
            }),
            r.shapes@.len() == 0,
    {
        let ten = Fx::from_int(10);
        let nten = Fx::from_int(-10);
        World {
            light: PointLight::new(Color::white(), point(nten, ten, nten)),
            shapes: Vec::new(),
        }
    }

    /// Every intersection of the ray with the world's shapes, sorted by
    /// ascending `t`: exactly the candidates the shapes produce, no more
    /// and no fewer.
    #[verifier::rlimit(100)]
    pub fn intersect(&self, ray: Ray) -> (r: Vec<Intersection>)
        requires
            world_wf(*self),
        ensures
            r@ == sel_sort(world_hits(*self, ray)),
            sorted_by_t(r@),
            r@.to_multiset() == world_hits(*self, ray).to_multiset(),
    {
        let mut xs: Vec<Intersection> = Vec::new();
        let mut i: usize = 0;
        let n = self.shapes.len();
        proof {
            assert(xs@ =~= hits_upto(self.shapes@, ray, 0));
        }
        while i < n
            invariant
                world_wf(*self),
                n == self.shapes@.len(),
                i <= n,
                xs@ == hits_upto(self.shapes@, ray, i as int),
            decreases n - i,
        {
            let hs = self.shapes[i].intersect(ray);
            let mut j: usize = 0;
            let ghost before = xs@;
            let ghost hseq = hs@;
            while j < hs.len()
                invariant
                    j <= hs@.len(),
                    hs@ == hseq,
                    xs@ == before + hseq.take(j as int),
                decreases hs.len() - j,
            {
                let v = hs[j];
                xs.push(v);
                proof {
                    assert(xs@ =~= before + hseq.take(j as int + 1));
                }
                j += 1;
            }
            proof {
                assert(hseq.take(hseq.len() as int) =~= hseq);
                assert(xs@ =~= hits_upto(self.shapes@, ray, i as int + 1));
            }
            i += 1;
        }
        proof {
            assert(xs@ == world_hits(*self, ray));
        }
        sort_by_t_exec(xs)
    }

    /// Whether the point lies in shadow: the shadow ray toward the light
    /// meets some shape at a non-negative `t` closer than the light.
    pub fn is_shadowed(&self, p: Tuple) -> (r: bool)
        requires
            world_wf(*self),
        ensures
            r == shadowed_s(*self, p),
    {
        let direction = self.light.position.sub(p);
        let distance = direction.magnitude();
        let ray = Ray::new(p, direction.normalize());
        let xs = self.intersect(ray);
        let ghost sorted = xs@;
        let h = hit(xs);
        proof {
            lemma_multiset_transfer(
                sorted,
                world_hits(*self, Ray { origin: p, direction: t_normalize(t_sub(self.light.position, p)) }),
                distance.m,
            );
        }
        match h {
            Some(i) => {
                proof {
                    if i.t.m < distance.m {
                        let k = choose|k: int| is_hit(sorted, k) && i == sorted[k];
                        assert(0 <= sorted[k].t.m < distance.m);
                    } else {
                        if exists|j: int| 0 <= j < sorted.len() && 0 <= (#[trigger] sorted[j]).t.m
                            < distance.m {
                            let j = choose|j: int|
                                0 <= j < sorted.len() && 0 <= (#[trigger] sorted[j]).t.m
                                    < distance.m;
                            let k = choose|k: int| is_hit(sorted, k) && i == sorted[k];
                            assert(sorted[k].t.m <= sorted[j].t.m);
                        }
                    }
                }
                i.t.m < distance.m
            },
            None => {
                proof {
                    if exists|j: int| 0 <= j < sorted.len() && 0 <= (#[trigger] sorted[j]).t.m
                        < distance.m {
                        let j = choose|j: int|
                            0 <= j < sorted.len() && 0 <= (#[trigger] sorted[j]).t.m < distance.m;
                    }
                }
                false
            },
        }
    }
}

impl Default for World {
    /// The deterministic two-sphere fixture: an outer sphere with a
    /// green-tinted diffuse material, an inner sphere at half scale.
    fn default() -> (r: World)
        ensures
            r.light == (PointLight {
                intensity: Color { r: Fx { m: SCALE }, g: Fx { m: SCALE }, b: Fx { m: SCALE } },
                position: Tuple {
                    x: Fx { m: -100_000_000_000_000i64 },
                    y: Fx { m: 100_000_000_000_000 },
                    z: Fx { m: -100_000_000_000_000i64 },
                    w: Fx { m: SCALE },
                },
            }),
            r.shapes@.len() == 2,
            r.shapes@[0] == (Shape {
                shape: ShapeType::Sphere,
                transform: mat4_id(),
                material: Material {
                    color: Color {
                        r: Fx { m: 8_000_000_000_000 },
                        g: Fx { m: SCALE },
                        b: Fx { m: 6_000_000_000_000 },
                    },
                    diffuse: Fx { m: 7_000_000_000_000 },
                    specular: Fx { m: 2_000_000_000_000 },
                    ..material_default_s()
                },
            }),
            r.shapes@[1] == (Shape {
                shape: ShapeType::Sphere,
                transform: mat4_mul_s(
                    mat4_id(),
                    scale_s(
                        Fx { m: 5_000_000_000_000 },
                        Fx { m: 5_000_000_000_000 },
                        Fx { m: 5_000_000_000_000 },
                    ),
                ),
                material: material_default_s(),
            }),
    {
        let mut w = World::new();

        let mut s1 = Shape::new(ShapeType::Sphere);
        s1.material.color = Color::new(
            Fx { m: 8_000_000_000_000 },
            Fx { m: SCALE },
            Fx { m: 6_000_000_000_000 },
        );
        s1.material.diffuse = Fx { m: 7_000_000_000_000 };
        s1.material.specular = Fx { m: 2_000_000_000_000 };

        let mut s2 = Shape::new(ShapeType::Sphere);
        let half = Fx { m: 5_000_000_000_000 };
        s2.transform = s2.transform.mul(crate::transform::scale(half, half, half));

        w.shapes.push(s1);
        w.shapes.push(s2);

        w
    }
}


/// The offset, in mantissa steps, that moves the over and under points off
/// the surface: 10^-7.
pub const OVER_POINT_EPSILON: i64 = 1_000_000;

/// The precomputed state of one resolved hit.
#[derive(Clone, Copy, Debug)]
pub struct Comps {
    pub t: Fx,
    pub shape: Shape,
    pub point: Tuple,
    pub over_point: Tuple,
    pub under_point: Tuple,
    pub eyev: Tuple,
    pub normalv: Tuple,
    pub reflectv: Tuple,
    pub inside: bool,
    pub n1: Fx,
    pub n2: Fx,
}

/// The precomputed state of an intersection on a ray: hit point, eye
/// vector, the surface normal (flipped when the ray starts inside), the
/// over and under points offset along that flipped normal — so both lie on
/// the eye's side of the surface and its far side respectively, whichever
/// side the ray came from — and the reflection vector; the refractive
/// indices are left at zero.
pub open spec fn comps_s(i: Intersection, r: Ray) -> Comps {
    let p = ray_position(r, i.t);
    let eyev = t_neg(r.direction);
    let normalv0 = shape_normal(i.shape, p);
    let eps = Fx { m: OVER_POINT_EPSILON };
    let inside = t_dot(normalv0, eyev).m < 0;
    let normalv = if inside {
        t_neg(normalv0)
    } else {
        normalv0
    };
    let over_point = t_add(p, t_mul(normalv, eps));
    let under_point = t_sub(p, t_mul(normalv, eps));
    let reflectv = t_reflect(r.direction, normalv);
    Comps {
        t: i.t,
        shape: i.shape,
        point: p,
        over_point,
        under_point,
        eyev,
        normalv,
        reflectv,
        inside,
        n1: Fx { m: 0 },
        n2: Fx { m: 0 },
    }
}

/// Intersection equality as the refraction walk compares candidates: same
/// parameter and the same shape within tolerance.
pub open spec fn inter_eq(a: Intersection, b: Intersection) -> bool {
    a.t.m == b.t.m && shape_eq(a.shape, b.shape)
}

/// The index of the first container equal to the shape, or -1.
pub open spec fn find_shape(cont: Seq<Shape>, s: Shape) -> int
    decreases cont.len(),
{
    if cont.len() == 0 {
        -1
    } else if shape_eq(cont[0], s) {
        0
    } else {
        let r = find_shape(cont.drop_first(), s);
        if r < 0 {
            -1
        } else {
            r + 1
        }
    }
}

/// One step of the container stack: a shape already present leaves (the
/// ray exits the volume), a new one enters.
pub open spec fn containers_step(cont: Seq<Shape>, s: Shape) -> Seq<Shape> {
    let f = find_shape(cont, s);
    if f < 0 {
        cont.push(s)
    } else {
        cont.remove(f)
    }
}

/// The refractive index at the top of the stack, or that of a vacuum.
pub open spec fn top_index(cont: Seq<Shape>) -> Fx {
    if cont.len() == 0 {
        Fx { m: SCALE }
    } else {
        cont.last().material.refractive_index
    }
}

/// The container stack and the `n1`/`n2` pair after walking the first `k`
/// intersections: at the target, `n1` reads the stack before its shape
/// toggles, `n2` after.
pub open spec fn walk_state(xs: Seq<Intersection>, target: Intersection, k: int) -> (
    Seq<Shape>,
    Fx,
    Fx,
)
    decreases k,
{
    if k <= 0 {
        (Seq::<Shape>::empty(), Fx { m: SCALE }, Fx { m: SCALE })
    } else {
        let prev = walk_state(xs, target, k - 1);
        let i = xs[k - 1];
        let n1 = if inter_eq(i, target) {
            top_index(prev.0)
        } else {
            prev.1
        };
        let cont = containers_step(prev.0, i.shape);
        let n2 = if inter_eq(i, target) {
            top_index(cont)
        } else {
            prev.2
        };
        (cont, n1, n2)
    }
}

proof fn lemma_find_shape_at(cont: Seq<Shape>, s: Shape, j: int)
    requires
        0 <= j < cont.len(),
        shape_eq(cont[j], s),
        forall|k: int| 0 <= k < j ==> !shape_eq(#[trigger] cont[k], s),
    ensures
        find_shape(cont, s) == j,
    decreases j,
{
    if j > 0 {
        lemma_find_shape_at(cont.drop_first(), s, j - 1);
    }
}

proof fn lemma_find_shape_none(cont: Seq<Shape>, s: Shape)
    requires
        forall|k: int| 0 <= k < cont.len() ==> !shape_eq(#[trigger] cont[k], s),
    ensures
        find_shape(cont, s) == -1,
    decreases cont.len(),
{
    if cont.len() > 0 {
        lemma_find_shape_none(cont.drop_first(), s);
    }
}

/// The surface term of a shaded hit: the Phong model at the over point,
/// shadow included.
pub open spec fn surface_s(w: World, comps: Comps) -> Color {
    lighting_s(
        comps.shape.material,
        comps.shape,
        w.light,
        comps.over_point,
        comps.eyev,
        comps.normalv,
        shadowed_s(w, comps.over_point),
    )
}

/// The square of a scalar, as the shading code computes it.
pub open spec fn fx_pow2(a: Fx) -> Fx {
    Fx { m: pow_m(a.m as int, 2) as i64 }
}

/// The squared sine of the refraction angle by Snell's law, from the
/// index ratio and the incident cosine.
pub open spec fn sin2_t_s(c: Comps) -> Fx {
    let n_ratio = fx_div(c.n1, c.n2);
    let cos_i = t_dot(c.eyev, c.normalv);
    fx_mul(fx_pow2(n_ratio), fx_sub(Fx { m: SCALE }, fx_pow2(cos_i)))
}

/// The Schlick reflectance: under total internal reflection it is one;
/// otherwise `r0 + (1 - r0) * (1 - cos)^5`, with the transmitted cosine
/// substituted when leaving the denser medium.
pub open spec fn schlick_s(c: Comps) -> Fx {
    let cos0 = t_dot(c.eyev, c.normalv);
    let n = fx_div(c.n1, c.n2);
    let sin2_t = fx_mul(fx_mul(n, n), fx_sub(Fx { m: SCALE }, fx_mul(cos0, cos0)));
    if c.n1.m > c.n2.m && sin2_t.m > SCALE {
        Fx { m: SCALE }
    } else {
        let cos = if c.n1.m > c.n2.m {
            fx_sqrt(fx_sub(Fx { m: SCALE }, sin2_t))
        } else {
            cos0
        };
        let r0 = fx_pow2(fx_div(fx_sub(c.n1, c.n2), fx_add(c.n1, c.n2)));
        fx_add(
            r0,
            fx_mul(
                fx_sub(Fx { m: SCALE }, r0),
                Fx { m: pow_m(fx_sub(Fx { m: SCALE }, cos).m as int, 5) as i64 },
            ),
        )
    }
}

/// At normal incidence between equal refractive indices the Schlick
/// reflectance is exactly `r0`, which is zero.
pub proof fn lemma_schlick_normal_incidence(c: Comps)
    requires
        c.n1 == c.n2,
        t_dot(c.eyev, c.normalv) == (Fx { m: SCALE }),
    ensures
        schlick_s(c) == (Fx { m: 0 }),
{
    crate::fixed::lemma_div_zero(fx_add(c.n1, c.n2).m as int);
    crate::fixed::lemma_mul_zero(crate::fixed::mul_m(SCALE as int, 0));
    crate::fixed::lemma_mul_zero(SCALE as int);
    let r0 = fx_pow2(fx_div(fx_sub(c.n1, c.n2), fx_add(c.n1, c.n2)));
    assert(fx_sub(c.n1, c.n2).m == 0);
    assert(fx_div(fx_sub(c.n1, c.n2), fx_add(c.n1, c.n2)).m == 0);
    assert(pow_m(0, 2) == crate::fixed::mul_m(crate::fixed::mul_m(SCALE as int, 0), 0));
    assert(crate::fixed::mul_m(SCALE as int, 0) == 0) by {
        crate::fixed::lemma_mul_zero(SCALE as int);
    };
    assert(r0.m == 0);
    let one_minus_cos = fx_sub(Fx { m: SCALE }, t_dot(c.eyev, c.normalv));
    assert(one_minus_cos.m == 0);
    assert(pow_m(0, 5) == 0) by {
        crate::fixed::lemma_mul_zero(pow_m(0, 4));
        crate::fixed::lemma_mul_zero(pow_m(0, 3));
        crate::fixed::lemma_mul_zero(pow_m(0, 2));
        crate::fixed::lemma_mul_zero(pow_m(0, 1));
        crate::fixed::lemma_mul_zero(pow_m(0, 0));
    };
    crate::fixed::lemma_mul_zero(fx_sub(Fx { m: SCALE }, r0).m as int);
}

/// Under total internal reflection — leaving the denser medium with the
/// squared transmitted sine above one — the Schlick reflectance is exactly
/// one.
pub proof fn lemma_schlick_total_internal_reflection(c: Comps)
    requires
        c.n1.m > c.n2.m,
        ({
            let cos0 = t_dot(c.eyev, c.normalv);
            let n = fx_div(c.n1, c.n2);
            fx_mul(fx_mul(n, n), fx_sub(Fx { m: SCALE }, fx_mul(cos0, cos0))).m > SCALE
        }),
    ensures
        schlick_s(c) == (Fx { m: SCALE }),
{
}

/// Scaling black leaves black.
proof fn lemma_scale_black(k: Fx)
    ensures
        c_scale(black_s(), k) == black_s(),
{
    assert(crate::fixed::mul_m(0, k.m as int) == 0) by {
        assert(0 * (k.m as int) == 0);
        assert(crate::fixed::rdiv_m(0, SCALE as int) == 0);
    };
}

impl World {
    /// The precomputed state of an intersection on a ray; the refractive
    /// indices are left at zero.
    pub fn prepare_computations(intersection: Intersection, ray: Ray) -> (r: Comps)
        requires
            inv4_ok(intersection.shape.transform),
        ensures
            r == comps_s(intersection, ray),
    {
        let t = intersection.t;
        let shape = intersection.shape;
        let p = ray.position(intersection.t);
        let eyev = ray.direction.neg();
        let mut normalv = shape.normal(p);
        let eps = Fx { m: OVER_POINT_EPSILON };
        let inside = if normalv.dot(eyev).m < 0 {
            normalv = normalv.neg();
            true
        } else {
            false
        };
        let over_point = p.add(normalv.mul(eps));
        let under_point = p.sub(normalv.mul(eps));
        let reflectv = ray.direction.reflect(normalv);
        Comps {
            t,
            shape,
            point: p,
            over_point,
            under_point,
            eyev,
            normalv,
            reflectv,
            inside,
            n1: Fx { m: 0 },
            n2: Fx { m: 0 },
        }
    }

    /// The precomputed state, with the refractive indices `n1` and `n2`
    /// resolved by walking the whole intersection list and keeping the
    /// stack of containers the ray is inside.
    pub fn prepare_computations_with_intersections(
        intersection: Intersection,
        ray: Ray,
        intersections: Vec<Intersection>,
    ) -> (r: Comps)
        requires
            inv4_ok(intersection.shape.transform),
        ensures
            r == (Comps {
                n1: walk_state(intersections@, intersection, intersections@.len() as int).1,
                n2: walk_state(intersections@, intersection, intersections@.len() as int).2,
                ..comps_s(intersection, ray)
            }),
    {
        let ghost xs = intersections@;
        let mut containers: Vec<Shape> = Vec::new();
        let mut n1: Fx = Fx { m: SCALE };
        let mut n2: Fx = Fx { m: SCALE };

        let mut k: usize = 0;
        let n = intersections.len();
        proof {
            assert(containers@ =~= walk_state(xs, intersection, 0).0);
        }
        while k < n
            invariant
                n == xs.len(),
                xs == intersections@,
                k <= n,
                containers@ == walk_state(xs, intersection, k as int).0,
                n1 == walk_state(xs, intersection, k as int).1,
                n2 == walk_state(xs, intersection, k as int).2,
            decreases n - k,
        {
            let i = intersections[k];
            let hit_target = i == intersection;

            if hit_target {
                if containers.len() == 0 {
                    n1 = Fx { m: SCALE };
                } else {
                    n1 = containers[containers.len() - 1].material.refractive_index;
                }
            }

            let mut found: Option<usize> = None;
            let mut j: usize = 0;
            while j < containers.len() && found.is_none()
                invariant
                    j <= containers@.len(),
                    match found {
                        Option::None => forall|jj: int|
                            0 <= jj < j ==> !shape_eq(#[trigger] containers@[jj], i.shape),
                        Option::Some(fj) => fj < j && j <= containers@.len() && shape_eq(
                            containers@[fj as int],
                            i.shape,
                        ) && forall|jj: int|
                            0 <= jj < fj ==> !shape_eq(#[trigger] containers@[jj], i.shape),
                    },
                decreases containers.len() - j,
            {
                if containers[j] == i.shape {
                    found = Some(j);
                }
                j += 1;
            }
            let ghost cont_before = containers@;
            match found {
                Some(fj) => {
                    proof {
                        lemma_find_shape_at(cont_before, i.shape, fj as int);
                    }
                    containers.remove(fj);
                },
                None => {
                    proof {
                        lemma_find_shape_none(cont_before, i.shape);
                    }
                    containers.push(i.shape);
                },
            }
            proof {
                assert(containers@ == containers_step(cont_before, i.shape));
            }

            if hit_target {
                if containers.len() == 0 {
                    n2 = Fx { m: SCALE };
                } else {
                    n2 = containers[containers.len() - 1].material.refractive_index;
                }
            }
            k += 1;
        }

        let mut comps = World::prepare_computations(intersection, ray);
        comps.n1 = n1;
        comps.n2 = n2;
        comps
    }

    /// The Schlick approximation of the Fresnel reflectance at a hit.
    pub fn schlick(comps: &Comps) -> (r: Fx)
        ensures
            r == schlick_s(*comps),
    {
        let mut cos = comps.eyev.dot(comps.normalv);

        if comps.n1.m > comps.n2.m {
            let n = comps.n1.div(comps.n2);
            let sin2_t = n.mul(n).mul(Fx::one().sub(cos.mul(cos)));
            if sin2_t.m > SCALE {
                return Fx::one();
            }
            let cos_t = Fx::one().sub(sin2_t).sqrt();
            cos = cos_t;
        }
        let r0 = comps.n1.sub(comps.n2).div(comps.n1.add(comps.n2)).powi(2);
        r0.add(Fx::one().sub(r0).mul(Fx::one().sub(cos).powi(5)))
    }
}


/// The sorted intersection list the world produces on a ray.
pub open spec fn world_xs(w: World, ray: Ray) -> Seq<Intersection> {
    sel_sort(world_hits(w, ray))
}

/// The precomputed state of a hit, refraction indices resolved against the
/// whole intersection list.
pub open spec fn comps_full_s(i: Intersection, ray: Ray, xs: Seq<Intersection>) -> Comps {
    Comps {
        n1: walk_state(xs, i, xs.len() as int).1,
        n2: walk_state(xs, i, xs.len() as int).2,
        ..comps_s(i, ray)
    }
}

/// The color a ray produces: black on a miss, else the shaded nearest hit.
pub open spec fn color_at_rec(w: World, ray: Ray, remaining: int) -> Color
    decreases remaining, 3int,
{
    match crate::intersections::hit_opt(world_xs(w, ray)) {
        Option::None => black_s(),
        Option::Some(i) => shade_hit_rec(w, comps_full_s(i, ray, world_xs(w, ray)), remaining),
    }
}

/// The full shade of a hit: surface, reflection and refraction, blended by
/// the Schlick reflectance when the material both reflects and refracts.
pub open spec fn shade_hit_rec(w: World, comps: Comps, remaining: int) -> Color
    decreases remaining, 2int,
{
    let surface = surface_s(w, comps);
    let reflected = reflected_rec(w, comps, remaining);
    let refracted = refracted_rec(w, comps, remaining);
    if comps.shape.material.reflective.m > 0 && comps.shape.material.transparency.m > 0 {
        let reflectance = schlick_s(comps);
        c_add(
            c_add(surface, c_scale(reflected, reflectance)),
            c_scale(refracted, fx_sub(Fx { m: SCALE }, reflectance)),
        )
    } else {
        c_add(c_add(surface, reflected), refracted)
    }
}

/// The reflected contribution: black with the budget spent or on a
/// non-reflective material.
pub open spec fn reflected_rec(w: World, comps: Comps, remaining: int) -> Color
    decreases remaining, 1int,
{
    if remaining > 0 && comps.shape.material.reflective.m > 0 {
        c_scale(
            color_at_rec(
                w,
                Ray { origin: comps.over_point, direction: comps.reflectv },
                remaining - 1,
            ),
            comps.shape.material.reflective,
        )
    } else {
        black_s()
    }
}

/// The refracted contribution: black with the budget spent, on an opaque
/// material, or under total internal reflection; else the refraction ray
/// from the under point by Snell's law, scaled by the transparency.
pub open spec fn refracted_rec(w: World, comps: Comps, remaining: int) -> Color
    decreases remaining, 1int,
{
    if remaining <= 0 || comps.shape.material.transparency.m == 0 {
        black_s()
    } else {
        let n_ratio = fx_div(comps.n1, comps.n2);
        let cos_i = t_dot(comps.eyev, comps.normalv);
        let sin2_t = fx_mul(fx_pow2(n_ratio), fx_sub(Fx { m: SCALE }, fx_pow2(cos_i)));
        if sin2_t.m > SCALE {
            black_s()
        } else {
            let cos_t = fx_sqrt(fx_sub(Fx { m: SCALE }, sin2_t));
            let direction = t_sub(
                t_mul(comps.normalv, fx_sub(fx_mul(n_ratio, cos_i), cos_t)),
                t_mul(comps.eyev, n_ratio),
            );
            c_scale(
                color_at_rec(
                    w,
                    Ray { origin: comps.under_point, direction },
                    remaining - 1,
                ),
                comps.shape.material.transparency,
            )
        }
    }
}

impl World {
    /// The color a ray produces, up to `remaining` reflective or refractive
    /// bounces: black when the ray hits nothing, else the shaded nearest
    /// hit.
    pub fn color_at(&self, ray: Ray, remaining: i8) -> (r: Color)
        requires
            world_wf(*self),
            remaining >= 0,
        ensures
            r == color_at_rec(*self, ray, remaining as int),
            no_hit(world_hits(*self, ray)) ==> r == black_s(),
        decreases remaining, 3int,
    {
        let intersections = self.intersect(ray);
        let second = self.intersect(ray);
        let ghost sorted = second@;
        let h = hit(second);
        proof {
            lemma_multiset_transfer(sorted, world_hits(*self, ray), 0);
        }
        match h {
            Some(i) => {
                proof {
                    let k = choose|k: int| is_hit(sorted, k) && i == sorted[k];
                    assert(sorted.contains(sorted[k]));
                    assert(world_hits(*self, ray).to_multiset().count(i) > 0);
                    assert(world_hits(*self, ray).contains(i));
                    let j = choose|j: int|
                        0 <= j < world_hits(*self, ray).len() && world_hits(*self, ray)[j] == i;
                    lemma_hits_upto_wf(self.shapes@, ray, self.shapes@.len() as int);
                }
                self.shade_hit(
                    Self::prepare_computations_with_intersections(i, ray, intersections),
                    remaining,
                )
            },
            None => Color::black(),
        }
    }

    /// The full shade of a resolved hit: the Phong surface term, plus the
    /// reflected and refracted contributions, blended by the Schlick
    /// reflectance when the material is both reflective and transparent.
    /// With the recursion budget spent, or on a material that neither
    /// reflects nor refracts, the result is the surface term alone.
    pub fn shade_hit(&self, comps: Comps, remaining: i8) -> (r: Color)
        requires
            world_wf(*self),
            remaining >= 0,
            inv4_ok(comps.shape.transform),
            lighting_wf(comps.shape.material, comps.shape),
        ensures
            r == shade_hit_rec(*self, comps, remaining as int),
            remaining == 0 ==> r == c_add(c_add(surface_s(*self, comps), black_s()), black_s()),
            comps.shape.material.reflective.m <= 0 && comps.shape.material.transparency.m == 0
                ==> r == c_add(c_add(surface_s(*self, comps), black_s()), black_s()),
        decreases remaining, 2int,
    {
        let shadowed = self.is_shadowed(comps.over_point);
        let surface = Material::lighting(
            comps.shape.material,
            &comps.shape,
            self.light,
            comps.over_point,
            comps.eyev,
            comps.normalv,
            shadowed,
        );
        let reflected = self.reflected_color(&comps, remaining);
        let refracted = self.refracted_color(&comps, remaining);

        let material = comps.shape.material;
        if material.reflective.m > 0 && material.transparency.m > 0 {
            let reflectance = World::schlick(&comps);
            proof {
                if remaining == 0 {
                    lemma_scale_black(reflectance);
                    lemma_scale_black(
                        Fx { m: crate::fixed::sub_m(SCALE as int, reflectance.m as int) as i64 },
                    );
                }
            }
            surface.add(reflected.scale(reflectance)).add(
                refracted.scale(Fx::one().sub(reflectance)),
            )
        } else {
            surface.add(reflected).add(refracted)
        }
    }

    /// The reflected contribution: black with the budget spent or on a
    /// non-reflective material, else the color of the reflection ray
    /// scaled by the reflectivity.
    pub fn reflected_color(&self, comps: &Comps, remaining: i8) -> (r: Color)
        requires
            world_wf(*self),
            remaining >= 0,
        ensures
            r == reflected_rec(*self, *comps, remaining as int),
            remaining == 0 || comps.shape.material.reflective.m <= 0 ==> r == black_s(),
        decreases remaining, 1int,
    {
        if remaining > 0 && comps.shape.material.reflective.m > 0 {
            let ray = Ray::new(comps.over_point, comps.reflectv);
            self.color_at(ray, remaining - 1).scale(comps.shape.material.reflective)
        } else {
            Color::black()
        }
    }

    /// The refracted contribution: black with the budget spent, on an
    /// opaque material, or under total internal reflection; else the color
    /// of the refraction ray from the under point, scaled by the
    /// transparency.
    pub fn refracted_color(&self, comps: &Comps, remaining: i8) -> (r: Color)
        requires
            world_wf(*self),
            remaining >= 0,
        ensures
            r == refracted_rec(*self, *comps, remaining as int),
            remaining == 0 || comps.shape.material.transparency.m == 0 ==> r == black_s(),
            remaining > 0 && comps.shape.material.transparency.m != 0 && sin2_t_s(*comps).m > SCALE
                ==> r == black_s(),
        decreases remaining, 1int,
    {
        if remaining == 0 || comps.shape.material.transparency.m == 0 {
            return Color::black();
        }
        let n_ratio = comps.n1.div(comps.n2);
        let cos_i = comps.eyev.dot(comps.normalv);
        let sin2_t = n_ratio.powi(2).mul(Fx::one().sub(cos_i.powi(2)));
        if sin2_t.m > SCALE {
            return Color::black();
        }

        let cos_t = Fx::one().sub(sin2_t).sqrt();
        let direction = comps.normalv.mul(n_ratio.mul(cos_i).sub(cos_t)).sub(
            comps.eyev.mul(n_ratio),
        );
        let refract_ray = Ray::new(comps.under_point, direction);
        self.color_at(refract_ray, remaining - 1).scale(comps.shape.material.transparency)
    }
}

} // verus!
