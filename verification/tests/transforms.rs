use rust_raytracer::fixed::Fx;
use rust_raytracer::transform::{rotate_x, rotate_y, rotate_z, scale, skew, translate};
use rust_raytracer::tuple::{point, vector, Tuple};

fn fx(v: f64) -> Fx {
    Fx::from_mantissa((v * 1.0e13).round() as i64)
}

fn to_f64(a: Fx) -> f64 {
    (a.m as f64) / 1.0e13
}

fn pt(x: f64, y: f64, z: f64) -> Tuple {
    point(fx(x), fx(y), fx(z))
}

fn vc(x: f64, y: f64, z: f64) -> Tuple {
    vector(fx(x), fx(y), fx(z))
}

fn rot_x(r: f64) -> rust_raytracer::matrix::Mat4x4 {
    rotate_x(fx(r.sin()), fx(r.cos()))
}

fn rot_y(r: f64) -> rust_raytracer::matrix::Mat4x4 {
    rotate_y(fx(r.sin()), fx(r.cos()))
}

fn rot_z(r: f64) -> rust_raytracer::matrix::Mat4x4 {
    rotate_z(fx(r.sin()), fx(r.cos()))
}

fn assert_tuple_eq(t1: Tuple, t2: Tuple) {
    let eps = 0.00001;
    assert!((to_f64(t1.x) - to_f64(t2.x)).abs() < eps);
    assert!((to_f64(t1.y) - to_f64(t2.y)).abs() < eps);
    assert!((to_f64(t1.z) - to_f64(t2.z)).abs() < eps);
    assert!((to_f64(t1.w) - to_f64(t2.w)).abs() < eps);
}

#[test]
fn multiplying_by_a_translation_matrix() {
    let m = translate(fx(5.0), fx(-3.0), fx(2.0));
    assert_tuple_eq(pt(2.0, 1.0, 7.0), m.mul_tuple(pt(-3.0, 4.0, 5.0)))
}

#[test]
fn multiplying_by_the_inverse_of_a_translation_matrix() {
    let m = translate(fx(5.0), fx(-3.0), fx(2.0));
    let im = m.inverse().unwrap();
    assert_tuple_eq(pt(-8.0, 7.0, 3.0), im.mul_tuple(pt(-3.0, 4.0, 5.0)))
}

#[test]
fn translation_does_not_affect_vectors() {
    let m = translate(fx(5.0), fx(-3.0), fx(2.0));
    let v = vc(-3.0, 4.0, 5.0);
    assert_tuple_eq(v, m.mul_tuple(v))
}

#[test]
fn scaling_matrix_applied_to_point() {
    let m = scale(fx(2.0), fx(3.0), fx(4.0));
    assert_tuple_eq(pt(-8.0, 18.0, 32.0), m.mul_tuple(pt(-4.0, 6.0, 8.0)))
}

#[test]
fn scaling_matrix_applied_to_vector() {
    let m = scale(fx(2.0), fx(3.0), fx(4.0));
    assert_tuple_eq(vc(-8.0, 18.0, 32.0), m.mul_tuple(vc(-4.0, 6.0, 8.0)))
}

#[test]
fn multiplying_by_the_inverse_of_a_scaling_matrix() {
    let m = scale(fx(2.0), fx(3.0), fx(4.0));
    let im = m.inverse().unwrap();
    assert_tuple_eq(vc(-2.0, 2.0, 2.0), im.mul_tuple(vc(-4.0, 6.0, 8.0)))
}

#[test]
fn reflection_is_scaling_by_a_negative_value() {
    let m = scale(fx(-1.0), fx(1.0), fx(1.0));
    assert_tuple_eq(pt(-2.0, 3.0, 4.0), m.mul_tuple(pt(2.0, 3.0, 4.0)))
}

#[test]
fn rotate_around_x_axis() {
    let p = pt(0.0, 1.0, 0.0);
    let mhq = rot_x(std::f64::consts::PI / 4.0);
    let mfq = rot_x(std::f64::consts::PI / 2.0);
    assert_tuple_eq(pt(0.0, 2_f64.sqrt() / 2.0, 2_f64.sqrt() / 2.0), mhq.mul_tuple(p));
    assert_tuple_eq(pt(0.0, 0.0, 1.0), mfq.mul_tuple(p));
}

#[test]
fn inverse_rotate_around_x() {
    let p = pt(0.0, 1.0, 0.0);
    let mhq = rot_x(std::f64::consts::PI / 4.0);
    assert_tuple_eq(
        pt(0.0, 2_f64.sqrt() / 2.0, -2_f64.sqrt() / 2.0),
        mhq.inverse().unwrap().mul_tuple(p),
    );
}

#[test]
fn rotate_around_y_axis() {
    let p = pt(0.0, 0.0, 1.0);
    let mhq = rot_y(std::f64::consts::PI / 4.0);
    let mfq = rot_y(std::f64::consts::PI / 2.0);
    assert_tuple_eq(pt(2_f64.sqrt() / 2.0, 0.0, 2_f64.sqrt() / 2.0), mhq.mul_tuple(p));
    assert_tuple_eq(pt(1.0, 0.0, 0.0), mfq.mul_tuple(p));
}

#[test]
fn rotate_around_z_axis() {
    let p = pt(0.0, 1.0, 0.0);
    let mhq = rot_z(std::f64::consts::PI / 4.0);
    let mfq = rot_z(std::f64::consts::PI / 2.0);
    assert_tuple_eq(pt(-2_f64.sqrt() / 2.0, 2_f64.sqrt() / 2.0, 0.0), mhq.mul_tuple(p));
    assert_tuple_eq(pt(-1.0, 0.0, 0.0), mfq.mul_tuple(p));
}

#[test]
fn skew_x_in_proportion_to_y() {
    let m = skew(fx(1.0), fx(0.0), fx(0.0), fx(0.0), fx(0.0), fx(0.0));
    assert_tuple_eq(pt(5.0, 3.0, 4.0), m.mul_tuple(pt(2.0, 3.0, 4.0)))
}

#[test]
fn skew_x_in_proportion_to_z() {
    let m = skew(fx(0.0), fx(1.0), fx(0.0), fx(0.0), fx(0.0), fx(0.0));
    assert_tuple_eq(pt(6.0, 3.0, 4.0), m.mul_tuple(pt(2.0, 3.0, 4.0)))
}

#[test]
fn skew_y_in_proportion_to_x() {
    let m = skew(fx(0.0), fx(0.0), fx(1.0), fx(0.0), fx(0.0), fx(0.0));
    assert_tuple_eq(pt(2.0, 5.0, 4.0), m.mul_tuple(pt(2.0, 3.0, 4.0)))
}

#[test]
fn skew_y_in_proportion_to_z() {
    let m = skew(fx(0.0), fx(0.0), fx(0.0), fx(1.0), fx(0.0), fx(0.0));
    assert_tuple_eq(pt(2.0, 7.0, 4.0), m.mul_tuple(pt(2.0, 3.0, 4.0)))
}

#[test]
fn skew_z_in_proportion_to_x() {
    let m = skew(fx(0.0), fx(0.0), fx(0.0), fx(0.0), fx(1.0), fx(0.0));
    assert_tuple_eq(pt(2.0, 3.0, 6.0), m.mul_tuple(pt(2.0, 3.0, 4.0)))
}

#[test]
fn skew_z_in_proportion_to_y() {
    let m = skew(fx(0.0), fx(0.0), fx(0.0), fx(0.0), fx(0.0), fx(1.0));
    assert_tuple_eq(pt(2.0, 3.0, 7.0), m.mul_tuple(pt(2.0, 3.0, 4.0)))
}

#[test]
fn individual_transformations_applied_in_sequence() {
    let p = pt(1.0, 0.0, 1.0);
    let a = rot_x(std::f64::consts::PI / 2.0);
    let b = scale(fx(5.0), fx(5.0), fx(5.0));
    let c = translate(fx(10.0), fx(5.0), fx(7.0));
    let p2 = a.mul_tuple(p);
    let p3 = b.mul_tuple(p2);
    let p4 = c.mul_tuple(p3);

    assert_tuple_eq(pt(1.0, -1.0, 0.0), p2);
    assert_tuple_eq(pt(5.0, -5.0, 0.0), p3);
    assert_tuple_eq(pt(15.0, 0.0, 7.0), p4);
}

#[test]
fn chained_transformations_applied_in_reverse_order() {
    let p = pt(1.0, 0.0, 1.0);
    let a = rot_x(std::f64::consts::PI / 2.0);
    let b = scale(fx(5.0), fx(5.0), fx(5.0));
    let c = translate(fx(10.0), fx(5.0), fx(7.0));
    let t = c.mul(b).mul(a);

    assert_tuple_eq(pt(15.0, 0.0, 7.0), t.mul_tuple(p));
}
