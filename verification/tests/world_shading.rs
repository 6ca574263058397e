use rust_raytracer::color::Color;
use rust_raytracer::fixed::Fx;
use rust_raytracer::intersections::Intersection;
use rust_raytracer::lights::PointLight;
use rust_raytracer::materials::Material;
use rust_raytracer::matrix::Mat4x4;
use rust_raytracer::patterns::{Pattern, StripedPattern};
use rust_raytracer::ray::Ray;
use rust_raytracer::shape::glass_sphere;
use rust_raytracer::shape::{Shape, ShapeType};
use rust_raytracer::transform::{scale, translate};
use rust_raytracer::tuple::{point, vector, Tuple};
use rust_raytracer::world::{World, OVER_POINT_EPSILON};

fn fx(v: f64) -> Fx {
    Fx::from_mantissa((v * 1.0e13).round() as i64)
}

fn to_f64(a: Fx) -> f64 {
    (a.m as f64) / 1.0e13
}

fn pt(x: f64, y: f64, z: f64) -> Tuple {
    point(fx(x), fx(y), fx(z))
}

fn vc(x: f64, y: f64, z: f64) -> Tuple {
    vector(fx(x), fx(y), fx(z))
}

fn col(r: f64, g: f64, b: f64) -> Color {
    Color::new(fx(r), fx(g), fx(b))
}

fn assert_color_near(c1: Color, c2: Color, tol: f64) {
    assert!((to_f64(c1.r) - to_f64(c2.r)).abs() < tol);
    assert!((to_f64(c1.g) - to_f64(c2.g)).abs() < tol);
    assert!((to_f64(c1.b) - to_f64(c2.b)).abs() < tol);
}

#[test]
fn creating_a_default_world() {
    let w = World::default();
    let expected_light = PointLight::new(col(1.0, 1.0, 1.0), pt(-10.0, 10.0, -10.0));

    let mut expected_material = Material::new();
    expected_material.color = col(0.8, 1.0, 0.6);
    expected_material.diffuse = fx(0.7);
    expected_material.specular = fx(0.2);

    let mut expected_transform = Mat4x4::identity();
    expected_transform = expected_transform.mul(scale(fx(0.5), fx(0.5), fx(0.5)));

    assert_eq!(expected_light, w.light);
    assert_eq!(Mat4x4::identity(), w.shapes[0].transform);
    assert_eq!(expected_material, w.shapes[0].material);
    assert_eq!(expected_transform, w.shapes[1].transform);
    assert_eq!(Material::new(), w.shapes[1].material);
}

#[test]
fn intersect_a_world_with_a_ray() {
    let w = World::default();
    let r = Ray::new(pt(0.0, 0.0, -5.0), vc(0.0, 0.0, 1.0));
    let xs = w.intersect(r);
    assert_eq!(4, xs.len());
    assert_eq!(fx(4.0), xs[0].t);
    assert_eq!(fx(4.5), xs[1].t);
    assert_eq!(fx(5.5), xs[2].t);
    assert_eq!(fx(6.0), xs[3].t);
}

#[test]
fn precomputing_the_state_of_an_intersection() {
    let mut w = World::new();
    let s = Shape::new(ShapeType::Sphere);
    w.shapes.push(s);
    let r = Ray::new(pt(0.0, 0.0, -5.0), vc(0.0, 0.0, 1.0));
    let i = Intersection::new(fx(4.0), &s);
    let c = World::prepare_computations(i, r);
    assert_eq!(c.t, i.t);
    assert_eq!(c.shape, s);
    assert_eq!(c.point, pt(0.0, 0.0, -1.0));
    assert_eq!(c.eyev, vc(0.0, 0.0, -1.0));
    assert_eq!(c.normalv, vc(0.0, 0.0, -1.0));
}

#[test]
fn hit_when_interserction_occurs_on_the_outside() {
    let mut w = World::new();
    let s = Shape::new(ShapeType::Sphere);
    w.shapes.push(s);
    let r = Ray::new(pt(0.0, 0.0, -5.0), vc(0.0, 0.0, 1.0));
    let i = Intersection::new(fx(4.0), &s);
    let c = World::prepare_computations(i, r);
    assert_eq!(c.inside, false);
}

#[test]
fn hit_when_interserction_occurs_on_the_inside() {
    let mut w = World::new();
    let s = Shape::new(ShapeType::Sphere);
    w.shapes.push(s);
    let r = Ray::new(pt(0.0, 0.0, 0.0), vc(0.0, 0.0, 1.0));
    let i = Intersection::new(fx(1.0), &s);
    let c = World::prepare_computations(i, r);
    assert_eq!(c.point, pt(0.0, 0.0, 1.0));
    assert_eq!(c.eyev, vc(0.0, 0.0, -1.0));
    assert_eq!(c.inside, true);
    assert_eq!(c.normalv, vc(0.0, 0.0, -1.0));
}

#[test]
fn hit_should_offset_the_point() {
    let mut s = Shape::new(ShapeType::Sphere);
    s.transform = translate(fx(0.0), fx(0.0), fx(1.0));
    let r = Ray::new(pt(0.0, 0.0, -5.0), vc(0.0, 0.0, 1.0));
    let i = Intersection::new(fx(5.0), &s);
    let comps = World::prepare_computations(i, r);
    assert!(comps.over_point.z.m < -OVER_POINT_EPSILON / 2);
    assert!(comps.point.z.m > comps.over_point.z.m);
}

#[test]
fn under_point_is_offset_below_the_surface() {
    let r = Ray::new(pt(0.0, 0.0, -5.0), vc(0.0, 0.0, 1.0));
    let mut s = glass_sphere();
    s.transform = translate(fx(0.0), fx(0.0), fx(1.0));
    let i = Intersection::new(fx(5.0), &s);
    let comps = World::prepare_computations(i, r);
    assert!(comps.under_point.z.m > OVER_POINT_EPSILON / 2);
    assert!(comps.point.z.m < comps.under_point.z.m);
}

#[test]
fn shading_an_intersection() {
    let w = World::default();
    let r = Ray::new(pt(0.0, 0.0, -5.0), vc(0.0, 0.0, 1.0));
    let i = Intersection::new(fx(4.0), &w.shapes[0]);
    let com = World::prepare_computations(i, r);
    let c = w.shade_hit(com, 5);
    assert_color_near(c, col(0.38066, 0.47583, 0.2855), 0.0001);
}

#[test]
fn shading_an_intersection_from_the_inside() {
    let mut w = World::default();
    w.light = PointLight::new(col(1.0, 1.0, 1.0), pt(0.0, 0.25, 0.0));
    let r = Ray::new(pt(0.0, 0.0, 0.0), vc(0.0, 0.0, 1.0));
    let i = Intersection::new(fx(0.5), &w.shapes[1]);
    let com = World::prepare_computations(i, r);
    let c = w.shade_hit(com, 5);
    // With the over point nudged along the flipped normal, this inside hit
    // is lit, not self-shadowed: ambient 0.1 plus diffuse 0.9 * (light .
    // normal), with a vanishing specular term.
    assert_color_near(c, col(0.90498, 0.90498, 0.90498), 0.0001);
}

#[test]
fn interection_in_shadow() {
    let mut w = World::default();
    w.light = PointLight::new(Color::white(), pt(0.0, 0.0, -10.0));
    w.shapes[1].transform = w.shapes[1].transform.mul(translate(fx(0.0), fx(0.0), fx(10.0)));
    let r = Ray::new(pt(0.0, 0.0, 5.0), vc(0.0, 0.0, 1.0));
    let i = Intersection::new(fx(4.0), &w.shapes[1]);
    let comps = World::prepare_computations(i, r);
    assert_eq!(col(0.1, 0.1, 0.1), w.shade_hit(comps, 5));
}

#[test]
fn the_color_when_a_ray_misses() {
    let w = World::default();
    let r = Ray::new(pt(0.0, 0.0, -5.0), vc(0.0, 1.0, 0.0));
    let c = w.color_at(r, 5);
    assert_eq!(c, col(0.0, 0.0, 0.0));
}

#[test]
fn the_color_when_a_ray_hits() {
    let w = World::default();
    let r = Ray::new(pt(0.0, 0.0, -5.0), vc(0.0, 0.0, 1.0));
    let c = w.color_at(r, 5);
    assert_color_near(c, col(0.38066, 0.47583, 0.2855), 0.0001);
}

#[test]
fn the_color_when_an_intersection_behind_the_ray() {
    let mut w = World::default();
    w.shapes[0].material.ambient = fx(1.0);
    w.shapes[1].material.ambient = fx(1.0);
    let r = Ray::new(pt(0.0, 0.0, 0.75), vc(0.0, 0.0, -1.0));
    let c = w.color_at(r, 5);
    assert_color_near(c, w.shapes[1].material.color, 0.0001);
}

#[test]
fn no_shadow_when_nothing_is_collinear_with_point_and_light() {
    let w = World::default();
    assert_eq!(false, w.is_shadowed(pt(0.0, 10.0, 0.0)));
}

#[test]
fn shadow_when_an_object_is_between_the_point_and_the_light() {
    let w = World::default();
    assert_eq!(true, w.is_shadowed(pt(10.0, -10.0, 10.0)));
}

#[test]
fn no_shadow_when_an_object_is_behind_the_light() {
    let w = World::default();
    assert_eq!(false, w.is_shadowed(pt(-20.0, 20.0, -20.0)));
}

#[test]
fn no_shadow_when_an_object_is_behind_the_point() {
    let w = World::default();
    assert_eq!(false, w.is_shadowed(pt(-2.0, 2.0, -2.0)));
}

#[test]
fn pre_compute_reflection_vector() {
    let p = Shape::new(ShapeType::Plane);
    let i = Intersection::new(fx(2_f64.sqrt()), &p);
    let r = Ray::new(
        pt(0.0, 1.0, -1.0),
        vc(0.0, -2_f64.sqrt() / 2.0, 2_f64.sqrt() / 2.0),
    );
    let c = World::prepare_computations(i, r);
    assert_eq!(vc(0.0, 2_f64.sqrt() / 2.0, 2_f64.sqrt() / 2.0), c.reflectv);
}

#[test]
fn reflected_color_for_a_nonreflective_material() {
    let mut w = World::default();
    let r = Ray::new(pt(0.0, 0.0, 0.0), vc(0.0, 0.0, 1.0));
    w.shapes[1].material.ambient = fx(1.0);
    let i = Intersection::new(fx(1.0), &w.shapes[1]);
    let comps = World::prepare_computations(i, r);
    assert_eq!(w.reflected_color(&comps, 5), Color::black());
}

#[test]
fn reflected_color_for_a_reflective_material() {
    let mut w = World::default();
    let mut p = Shape::new(ShapeType::Plane);
    p.material.reflective = fx(0.5);
    p.transform = translate(fx(0.0), fx(-1.0), fx(0.0));
    w.shapes.push(p);
    let r = Ray::new(
        pt(0.0, 0.0, -3.0),
        vc(0.0, -2_f64.sqrt() / 2.0, 2_f64.sqrt() / 2.0),
    );
    let i = Intersection::new(fx(2_f64.sqrt()), &p);
    let comps = World::prepare_computations(i, r);
    assert_color_near(w.reflected_color(&comps, 5), col(0.19032, 0.2379, 0.14274), 0.0001);
}

#[test]
fn shade_hit_with_a_reflective_material() {
    let mut w = World::default();
    let mut p = Shape::new(ShapeType::Plane);
    p.material.reflective = fx(0.5);
    p.transform = translate(fx(0.0), fx(-1.0), fx(0.0));
    w.shapes.push(p);
    let r = Ray::new(
        pt(0.0, 0.0, -3.0),
        vc(0.0, -2_f64.sqrt() / 2.0, 2_f64.sqrt() / 2.0),
    );
    let i = Intersection::new(fx(2_f64.sqrt()), &p);
    let comps = World::prepare_computations(i, r);
    assert_color_near(w.shade_hit(comps, 5), col(0.87677, 0.92436, 0.82918), 0.0001);
}

#[test]
fn reflected_color_at_maximum_recursion_depth() {
    let mut w = World::default();
    let mut p = Shape::new(ShapeType::Plane);
    p.material.reflective = fx(0.5);
    p.transform = translate(fx(0.0), fx(-1.0), fx(0.0));
    w.shapes.push(p);
    let r = Ray::new(
        pt(0.0, 0.0, -3.0),
        vc(0.0, -2_f64.sqrt() / 2.0, 2_f64.sqrt() / 2.0),
    );
    let i = Intersection::new(fx(2_f64.sqrt()), &p);
    let comps = World::prepare_computations(i, r);
    assert_eq!(w.reflected_color(&comps, 0), Color::black());
}

#[test]
fn color_at_with_mutually_reflective_surfaces() {
    let mut w = World::default();
    w.light = PointLight::new(Color::white(), pt(0.0, 0.0, 0.0));

    let mut lower_plane = Shape::new(ShapeType::Plane);
    lower_plane.material.reflective = fx(1.0);
    lower_plane.transform = translate(fx(0.0), fx(-1.0), fx(0.0));
    w.shapes.push(lower_plane);

    let mut upper_plane = Shape::new(ShapeType::Plane);
    upper_plane.material.reflective = fx(1.0);
    upper_plane.transform = translate(fx(0.0), fx(1.0), fx(0.0));
    w.shapes.push(upper_plane);

    let r = Ray::new(pt(0.0, 0.0, 0.0), vc(0.0, 1.0, 0.0));

    // The bounded recursion must end rather than ping between the planes.
    w.color_at(r, 5);
    assert!(true);
}

#[test]
fn refracted_color_with_an_opaque_surface() {
    let w = World::default();
    let shape = &w.shapes[0];
    let r = Ray::new(pt(0.0, 0.0, -5.0), vc(0.0, 0.0, 1.0));
    let xs = vec![
        Intersection::new(fx(4.0), shape),
        Intersection::new(fx(6.0), shape),
    ];
    let comps = World::prepare_computations_with_intersections(xs[0], r, xs);
    let c = w.refracted_color(&comps, 5);
    assert_eq!(Color::black(), c);
}

#[test]
fn refracted_color_at_maximum_recurisve_depth() {
    let mut w = World::default();
    w.shapes[0].material.transparency = fx(1.0);
    w.shapes[0].material.refractive_index = fx(1.5);
    let r = Ray::new(pt(0.0, 0.0, -5.0), vc(0.0, 0.0, 1.0));
    let xs = vec![
        Intersection::new(fx(4.0), &w.shapes[0]),
        Intersection::new(fx(6.0), &w.shapes[0]),
    ];
    let comps = World::prepare_computations_with_intersections(xs[0], r, xs);
    let c = w.refracted_color(&comps, 0);
    assert_eq!(Color::black(), c);
}

#[test]
fn refracted_color_under_total_internal_reflection() {
    let mut w = World::default();
    w.shapes[0].material.transparency = fx(1.0);
    w.shapes[0].material.refractive_index = fx(1.5);
    let r = Ray::new(pt(0.0, 0.0, 2_f64.sqrt() / 2.0), vc(0.0, 1.0, 0.0));
    let xs = vec![
        Intersection::new(fx(-2_f64.sqrt() / 2.0), &w.shapes[0]),
        Intersection::new(fx(2_f64.sqrt() / 2.0), &w.shapes[0]),
    ];
    let comps = World::prepare_computations_with_intersections(xs[1], r, xs);
    let c = w.refracted_color(&comps, 5);
    assert_eq!(Color::black(), c);
}

#[test]
fn refracted_color_with_a_refracted_ray() {
    let mut w = World::default();
    w.shapes[0].material.ambient = fx(1.0);
    w.shapes[0].material.pattern = Some(Pattern::Stripe(StripedPattern::new(
        col(0.42, 0.11, 0.57),
        Color::white(),
    )));
    w.shapes[1].material.transparency = fx(1.0);
    w.shapes[1].material.refractive_index = fx(1.5);

    let r = Ray::new(pt(0.0, 0.0, 0.1), vc(0.0, 1.0, 0.0));
    let xs = vec![
        Intersection::new(fx(-0.9899), &w.shapes[0]),
        Intersection::new(fx(-0.4899), &w.shapes[1]),
        Intersection::new(fx(0.4899), &w.shapes[1]),
        Intersection::new(fx(0.9899), &w.shapes[0]),
    ];
    let comps = World::prepare_computations_with_intersections(xs[2], r, xs);
    let c = w.refracted_color(&comps, 5);
    assert_eq!(col(0.42, 0.11, 0.57), c);
}

#[test]
fn shade_hit_with_a_transparent_material() {
    let mut w = World::default();
    let mut floor = Shape::new(ShapeType::Plane);
    floor.transform = translate(fx(0.0), fx(-1.0), fx(0.0));
    floor.material.transparency = fx(0.5);
    floor.material.refractive_index = fx(1.5);
    w.shapes.push(floor);

    let mut ball = Shape::new(ShapeType::Sphere);
    ball.material.color = col(1.0, 0.0, 0.0);
    ball.material.ambient = fx(0.5);
    ball.transform = translate(fx(0.0), fx(-3.5), fx(-0.5));
    w.shapes.push(ball);

    let r = Ray::new(
        pt(0.0, 0.0, -3.0),
        vc(0.0, -2_f64.sqrt() / 2.0, 2_f64.sqrt() / 2.0),
    );
    let xs = vec![Intersection::new(fx(2_f64.sqrt()), &floor)];
    let comps = World::prepare_computations_with_intersections(xs[0], r, xs);
    let c = w.shade_hit(comps, 5);
    assert_color_near(col(0.93642, 0.68642, 0.68642), c, 0.00001);
}

#[test]
fn shade_hit_with_a_reflective_transparent_material() {
    let mut w = World::default();
    let mut floor = Shape::new(ShapeType::Plane);
    floor.transform = translate(fx(0.0), fx(-1.0), fx(0.0));
    floor.material.transparency = fx(0.5);
    floor.material.reflective = fx(0.5);
    floor.material.refractive_index = fx(1.5);
    w.shapes.push(floor);

    let mut ball = Shape::new(ShapeType::Sphere);
    ball.material.color = col(1.0, 0.0, 0.0);
    ball.material.ambient = fx(0.5);
    ball.transform = translate(fx(0.0), fx(-3.5), fx(-0.5));
    w.shapes.push(ball);

    let r = Ray::new(
        pt(0.0, 0.0, -3.0),
        vc(0.0, -2_f64.sqrt() / 2.0, 2_f64.sqrt() / 2.0),
    );
    let xs = vec![Intersection::new(fx(2_f64.sqrt()), &floor)];
    let comps = World::prepare_computations_with_intersections(xs[0], r, xs);
    let c = w.shade_hit(comps, 5);
    assert_color_near(col(0.93391, 0.69643, 0.69243), c, 0.00001);
}

#[test]
fn schlick_approximation_under_total_internal_reflection() {
    let s = glass_sphere();
    let r = Ray::new(pt(0.0, 0.0, 2_f64.sqrt() / 2.0), vc(0.0, 1.0, 0.0));
    let xs = vec![
        Intersection::new(fx(-2_f64.sqrt() / 2.0), &s),
        Intersection::new(fx(2_f64.sqrt() / 2.0), &s),
    ];
    let comps = World::prepare_computations_with_intersections(xs[1], r, xs);
    let reflectance = World::schlick(&comps);
    assert_eq!(fx(1.0), reflectance);
}

#[test]
fn schlick_approximation_with_perpendicular_viewing_angle() {
    let s = glass_sphere();
    let r = Ray::new(pt(0.0, 0.0, 0.0), vc(0.0, 1.0, 0.0));
    let xs = vec![
        Intersection::new(fx(-1.0), &s),
        Intersection::new(fx(1.0), &s),
    ];
    let comps = World::prepare_computations_with_intersections(xs[1], r, xs);
    let reflectance = World::schlick(&comps);
    assert!((to_f64(reflectance) - 0.04).abs() < 0.00001);
}

#[test]
fn schlick_approximation_with_small_angle_and_n2_greater_than_n1() {
    let s = glass_sphere();
    let r = Ray::new(pt(0.0, 0.99, -2.0), vc(0.0, 0.0, 1.0));
    let xs = vec![Intersection::new(fx(1.8589), &s)];
    let comps = World::prepare_computations_with_intersections(xs[0], r, xs);
    let reflectance = World::schlick(&comps);
    assert!((to_f64(reflectance) - 0.48873).abs() < 0.0001);
}
