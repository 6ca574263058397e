//! The camera: pixel-to-ray projection and the per-pixel rendering loop.
//!
//! The camera's opening is given as the tangent of half the field of view,
//! supplied by the caller along with the angle itself: computing a tangent
//! is transcendental and stays outside the exact core.

use crate::color::Color;
use crate::fixed::Fx;
use crate::fixed::SCALE;
use crate::matrix::{inv4, inv4_ok, mat4_id, mat4_mul_s, m4_tuple, Mat4x4};
use crate::ray::Ray;
use crate::transform::translate_s;
use crate::tuple::{
    fx_add, fx_div, fx_int, fx_mul, fx_neg, fx_sub, point, t_cross, t_normalize, t_sub, vector,
    Tuple,
};
use crate::world::{color_at_rec, world_wf, World};
use vstd::prelude::*;

verus! {

/// A camera: image dimensions, field of view, a world transform, and the
/// derived pixel geometry.
#[derive(Clone, Copy, Debug)]
pub struct Camera {
    pub hsize: u32,
    pub vsize: u32,
    pub field_of_view: Fx,
    pub transform: Mat4x4,
    pub pixel_size: Fx,
    pub half_width: Fx,
    pub half_height: Fx,
}

/// The aspect ratio of the image.
pub open spec fn aspect_s(hsize: u32, vsize: u32) -> Fx {
    fx_div(fx_int(hsize as int), fx_int(vsize as int))
}

/// The half-width of the image plane: the half view, shrunk by the aspect
/// ratio when the image is taller than wide.
pub open spec fn half_width_s(hsize: u32, vsize: u32, half_view: Fx) -> Fx {
    if aspect_s(hsize, vsize).m >= SCALE {
        half_view
    } else {
        fx_mul(half_view, aspect_s(hsize, vsize))
    }
}

/// The half-height of the image plane.
pub open spec fn half_height_s(hsize: u32, vsize: u32, half_view: Fx) -> Fx {
    if aspect_s(hsize, vsize).m >= SCALE {
        fx_div(half_view, aspect_s(hsize, vsize))
    } else {
        half_view
    }
}

/// The world-space size of one pixel.
pub open spec fn pixel_size_s(hsize: u32, vsize: u32, half_view: Fx) -> Fx {
    fx_div(
        fx_mul(half_width_s(hsize, vsize, half_view), Fx { m: 20_000_000_000_000 }),
        fx_int(hsize as int),
    )
}

/// The ray from the camera through the center of a pixel: offsets on the
/// image plane at `z == -1` in camera space, both ends carried to world
/// space by the inverse camera transform, direction normalized.
pub open spec fn ray_for_pixel_s(c: Camera, px: u32, py: u32) -> Ray {
    let half = Fx { m: 5_000_000_000_000 };
    let xoffset = fx_mul(fx_add(fx_int(px as int), half), c.pixel_size);
    let yoffset = fx_mul(fx_add(fx_int(py as int), half), c.pixel_size);
    let world_x = fx_sub(c.half_width, xoffset);
    let world_y = fx_sub(c.half_height, yoffset);
    let inv = inv4(c.transform);
    let pixel = m4_tuple(
        inv,
        Tuple { x: world_x, y: world_y, z: Fx { m: -10_000_000_000_000i64 }, w: Fx { m: SCALE } },
    );
    let origin = m4_tuple(
        inv,
        Tuple { x: Fx { m: 0 }, y: Fx { m: 0 }, z: Fx { m: 0 }, w: Fx { m: SCALE } },
    );
    Ray { origin, direction: t_normalize(t_sub(pixel, origin)) }
}

impl Camera {
    /// A camera over an image of `hsize` by `vsize` pixels. `half_view` is
    /// the tangent of half `field_of_view`, computed by the caller.
    pub fn new(hsize: u32, vsize: u32, field_of_view: Fx, half_view: Fx) -> (r: Camera)
        ensures
            r == (Camera {
                hsize,
                vsize,
                field_of_view,
                transform: mat4_id(),
                pixel_size: pixel_size_s(hsize, vsize, half_view),
                half_width: half_width_s(hsize, vsize, half_view),
                half_height: half_height_s(hsize, vsize, half_view),
            }),
    {
        let aspect = Fx::from_int(hsize as i64).div(Fx::from_int(vsize as i64));
        let half_width: Fx;
        let half_height: Fx;

        if aspect.m >= SCALE {
            half_width = half_view;
            half_height = half_view.div(aspect);
        } else {
            half_width = half_view.mul(aspect);
            half_height = half_view;
        }
        let pixel_size = half_width.mul(Fx::from_int(2)).div(Fx::from_int(hsize as i64));

        Camera {
            hsize,
            vsize,
            field_of_view,
            transform: Mat4x4::identity(),
            pixel_size,
            half_width,
            half_height,
        }
    }

    /// The ray through the center of the given pixel.
    pub fn ray_for_pixel(&self, px: u32, py: u32) -> (r: Ray)
        requires
            inv4_ok(self.transform),
        ensures
            r == ray_for_pixel_s(*self, px, py),
    {
        let half = Fx { m: 5_000_000_000_000 };
        let xoffset = Fx::from_int(px as i64).add(half).mul(self.pixel_size);
        let yoffset = Fx::from_int(py as i64).add(half).mul(self.pixel_size);

        let world_x = self.half_width.sub(xoffset);
        let world_y = self.half_height.sub(yoffset);

        let inv = self.transform.inverse().unwrap();
        let pixel = inv.mul_tuple(point(world_x, world_y, Fx { m: -10_000_000_000_000i64 }));
        let z = Fx { m: 0 };
        let origin = inv.mul_tuple(point(z, z, z));
        let direction = pixel.sub(origin).normalize();

        Ray::new(origin, direction)
    }

    /// Renders the world: one color per pixel, row by row, each pixel's
    /// ray traced with a recursion budget of five bounces.
    pub fn render(&self, world: World) -> (r: Vec<Vec<Color>>)
        requires
            inv4_ok(self.transform),
            world_wf(world),
        ensures
            r@.len() == self.vsize,
            forall|y: int| 0 <= y < r@.len() ==> (#[trigger] r@[y])@.len() == self.hsize,
            forall|y: int, x: int|
                0 <= y < self.vsize && 0 <= x < self.hsize ==> #[trigger] r@[y]@[x]
                    == color_at_rec(world, ray_for_pixel_s(*self, x as u32, y as u32), 5),
    {
        let mut image: Vec<Vec<Color>> = Vec::new();
        let mut y: u32 = 0;
        while y < self.vsize
            invariant
                inv4_ok(self.transform),
                world_wf(world),
                y <= self.vsize,
                image@.len() == y,
                forall|yy: int| 0 <= yy < y ==> (#[trigger] image@[yy])@.len() == self.hsize,
                forall|yy: int, xx: int|
                    0 <= yy < y && 0 <= xx < self.hsize ==> #[trigger] image@[yy]@[xx]
                        == color_at_rec(world, ray_for_pixel_s(*self, xx as u32, yy as u32), 5),
            decreases self.vsize - y,
        {
            let mut row: Vec<Color> = Vec::new();
            let mut x: u32 = 0;
            while x < self.hsize
                invariant
                    inv4_ok(self.transform),
                    world_wf(world),
                    x <= self.hsize,
                    row@.len() == x,
                    forall|xx: int|
                        0 <= xx < x ==> #[trigger] row@[xx] == color_at_rec(
                            world,
                            ray_for_pixel_s(*self, xx as u32, y as u32),
                            5,
                        ),
                decreases self.hsize - x,
            {
                let ray = self.ray_for_pixel(x, y);
                let color = world.color_at(ray, 5);
                row.push(color);
                x += 1;
            }
            image.push(row);
            y += 1;
        }
        image
    }
}

/// The orientation part of a view transform: the camera basis rows over
/// the negated forward axis.
pub open spec fn orientation_s(forw: Tuple, left: Tuple, true_up: Tuple) -> Mat4x4 {
    let z = Fx { m: 0 };
    let o = Fx { m: SCALE };
    Mat4x4 {
        data: [
            [left.x, left.y, left.z, z],
            [true_up.x, true_up.y, true_up.z, z],
            [fx_neg(forw.x), fx_neg(forw.y), fx_neg(forw.z), z],
            [z, z, z, o],
        ],
    }
}

/// The view transform looking from `from` toward `to` with the given up
/// hint: the orthonormal-basis orientation composed with a translation of
/// the eye to the origin.
pub open spec fn view_transform_s(from: Tuple, to: Tuple, up: Tuple) -> Mat4x4 {
    let forw = t_normalize(t_sub(to, from));
    let left = t_cross(forw, t_normalize(up));
    let true_up = t_cross(left, forw);
    mat4_mul_s(
        orientation_s(forw, left, true_up),
        translate_s(fx_neg(from.x), fx_neg(from.y), fx_neg(from.z)),
    )
}

/// The transform that moves the world in front of a camera at `from`
/// looking toward `to`.
pub fn view_transform(from: Tuple, to: Tuple, up: Tuple) -> (r: Mat4x4)
    ensures
        r == view_transform_s(from, to, up),
{
    let forw = to.sub(from).normalize();
    let left = forw.cross(up.normalize());
    let true_up = left.cross(forw);
    let z = Fx { m: 0 };
    let o = Fx { m: SCALE };
    let orientation = Mat4x4::new(
        [
            [left.x, left.y, left.z, z],
            [true_up.x, true_up.y, true_up.z, z],
            [forw.x.neg(), forw.y.neg(), forw.z.neg(), z],
            [z, z, z, o],
        ],
    );
    orientation.mul(crate::transform::translate(from.x.neg(), from.y.neg(), from.z.neg()))
}

} // verus!
