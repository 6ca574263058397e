//! A ray tracer whose scene arithmetic is exactly specified end to end.
//!
//! Every quantity in the pipeline is a fixed-point scalar ([`fixed::Fx`]):
//! an `i64` mantissa counting steps of `10^-13`, with rounding to the
//! nearest step and symmetric saturation. Because each scalar operation is
//! a total integer formula, every stage — the tuple and matrix algebra,
//! transform construction and inversion, ray-primitive intersection, hit
//! resolution, the Phong shading model with shadows, reflection and
//! refraction, and the camera's pixel-to-ray projection — carries a
//! contract that pins its result down to the exact value it computes.
//!
//! The recursion of reflected and refracted light is bounded by an explicit
//! budget and terminates by construction; matrix inversion confirms its
//! adjugate candidate against the identity before handing it back; and the
//! transcendental inputs a scene needs (sines, cosines, tangents of view
//! angles) are taken as scalar arguments, so the core never leaves exact
//! arithmetic.

pub mod camera;
pub mod color;
pub mod fixed;
pub mod intersections;
pub mod lights;
pub mod materials;
pub mod matrix;
pub mod patterns;
pub mod ray;
pub mod shape;
pub mod sphere;
pub mod transform;
pub mod tuple;
pub mod world;
