//! Surface materials and the Phong local-illumination model.

use crate::color::{black_s, c_add, c_mul, c_scale, Color};
use crate::fixed::{pow_m, Fx, SCALE};
use crate::lights::PointLight;
use crate::matrix::{inv4_ok, mat4_near, EQ_TOL};
use crate::patterns::{pattern_color_at_object, pattern_eq, pattern_transform, Pattern};
use crate::shape::Shape;
use crate::tuple::{t_dot, t_neg, t_normalize, t_reflect, t_sub, Tuple};
use vstd::prelude::*;

verus! {

/// A surface material: flat color or pattern, Phong coefficients, mirror
/// reflectivity, transparency and refractive index.
#[derive(Clone, Copy, Debug)]
pub struct Material {
    pub color: Color,
    pub ambient: Fx,
    pub diffuse: Fx,
    pub specular: Fx,
    pub shininess: u32,
    pub reflective: Fx,
    pub transparency: Fx,
    pub refractive_index: Fx,
    pub pattern: Option<Pattern>,
}

/// The default material: white, ambient 0.1, diffuse 0.9, specular 0.9,
/// shininess 200, opaque, not reflective, refractive index of a vacuum.
pub open spec fn material_default_s() -> Material {
    Material {
        color: Color { r: Fx { m: SCALE }, g: Fx { m: SCALE }, b: Fx { m: SCALE } },
        ambient: Fx { m: 1_000_000_000_000 },
        diffuse: Fx { m: 9_000_000_000_000 },
        specular: Fx { m: 9_000_000_000_000 },
        shininess: 200,
        reflective: Fx { m: 0 },
        transparency: Fx { m: 0 },
        refractive_index: Fx { m: SCALE },
        pattern: None,
    }
}

/// Material equality: equal coefficients and colors, and patterns equal
/// within the matrix tolerance.
pub open spec fn mat_eq(a: Material, b: Material) -> bool {
    &&& a.color == b.color
    &&& a.ambient == b.ambient
    &&& a.diffuse == b.diffuse
    &&& a.specular == b.specular
    &&& a.shininess == b.shininess
    &&& a.reflective == b.reflective
    &&& a.transparency == b.transparency
    &&& a.refractive_index == b.refractive_index
    &&& match (a.pattern, b.pattern) {
        (None, None) => true,
        (Some(p), Some(q)) => pattern_eq(p, q),
        _ => false,
    }
}

/// The base color lighting starts from: the pattern sampled on the shape,
/// or the material's flat color.
pub open spec fn base_color(m: Material, object: Shape, p: Tuple) -> Color {
    match m.pattern {
        Some(pat) => pattern_color_at_object(pat, object, p),
        None => m.color,
    }
}

/// The Phong model. The ambient term always applies; in shadow, diffuse
/// and specular are black; otherwise diffuse scales with the cosine of the
/// light angle when non-negative, and specular with the alignment of the
/// reflected light and the eye raised to the shininess.
pub open spec fn lighting_s(
    m: Material,
    object: Shape,
    light: PointLight,
    p: Tuple,
    eyev: Tuple,
    normalv: Tuple,
    in_shadow: bool,
) -> Color {
    let effective = c_mul(base_color(m, object, p), light.intensity);
    let lightv = t_normalize(t_sub(light.position, p));
    let ambient = c_scale(effective, m.ambient);
    let light_dot_normal = t_dot(lightv, normalv);
    let diffuse = if !in_shadow && light_dot_normal.m >= 0 {
        c_scale(c_scale(effective, m.diffuse), light_dot_normal)
    } else {
        black_s()
    };
    let reflect_dot_eye = t_dot(t_reflect(t_neg(lightv), normalv), eyev);
    let specular = if !in_shadow && light_dot_normal.m >= 0 && reflect_dot_eye.m > 0 {
        c_scale(
            c_scale(light.intensity, m.specular),
            Fx { m: pow_m(reflect_dot_eye.m as int, m.shininess as nat) as i64 },
        )
    } else {
        black_s()
    };
    c_add(c_add(ambient, diffuse), specular)
}

/// Whether lighting may sample this material's pattern on this shape: the
/// transforms it inverts must be invertible.
pub open spec fn lighting_wf(m: Material, object: Shape) -> bool {
    match m.pattern {
        Some(pat) => inv4_ok(object.transform) && inv4_ok(pattern_transform(pat)),
        None => true,
    }
}

impl Material {
    /// The default material.
    pub fn new() -> (r: Material)
        ensures
            r == material_default_s(),
    {
        Material {
            color: Color { r: Fx { m: SCALE }, g: Fx { m: SCALE }, b: Fx { m: SCALE } },
            ambient: Fx { m: 1_000_000_000_000 },
            diffuse: Fx { m: 9_000_000_000_000 },
            specular: Fx { m: 9_000_000_000_000 },
            shininess: 200,
            reflective: Fx { m: 0 },
            transparency: Fx { m: 0 },
            refractive_index: Fx { m: SCALE },
            pattern: None,
        }
    }

    /// The Phong local illumination at a point.
    pub fn lighting(
        material: Material,
        object: &Shape,
        light: PointLight,
        p: Tuple,
        eyev: Tuple,
        normalv: Tuple,
        in_shadow: bool,
    ) -> (r: Color)
        requires
            lighting_wf(material, *object),
        ensures
            r == lighting_s(material, *object, light, p, eyev, normalv, in_shadow),
    {
        let color = match material.pattern {
            Some(pattern) => pattern.color_at_object(object, p),
            None => material.color,
        };
        let effective_color = color.mul(light.intensity);
        let lightv = light.position.sub(p).normalize();
        let ambient = effective_color.scale(material.ambient);

        let mut diffuse = Color::black();
        let mut specular = Color::black();
        if !in_shadow {
            let light_dot_normal = lightv.dot(normalv);
            if light_dot_normal.m >= 0 {
                diffuse = effective_color.scale(material.diffuse).scale(light_dot_normal);

                let reflectv = lightv.neg().reflect(normalv);
                let reflect_dot_eye = reflectv.dot(eyev);

                if reflect_dot_eye.m > 0 {
                    let factor = reflect_dot_eye.powi(material.shininess);
                    specular = light.intensity.scale(material.specular).scale(factor);
                }
            }
        }

        ambient.add(diffuse).add(specular)
    }
}

impl PartialEq for Material {
    /// Equal coefficients, colors, and patterns.
    fn eq(&self, other: &Material) -> (r: bool) {
        let same_pattern = match (self.pattern, other.pattern) {
            (Option::None, Option::None) => true,
            (Option::Some(p), Option::Some(q)) => p == q,
            _ => false,
        };
        self.color == other.color && self.ambient == other.ambient && self.diffuse == other.diffuse
            && self.specular == other.specular && self.shininess == other.shininess
            && self.reflective == other.reflective && self.transparency == other.transparency
            && self.refractive_index == other.refractive_index && same_pattern
    }
}

impl vstd::std_specs::cmp::PartialEqSpecImpl for Material {
    open spec fn obeys_eq_spec() -> bool {
        true
    }

    open spec fn eq_spec(&self, other: &Material) -> bool {
        mat_eq(*self, *other)
    }
}

impl Eq for Material {}

} // verus!
