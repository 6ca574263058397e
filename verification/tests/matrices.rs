use rust_raytracer::fixed::Fx;
use rust_raytracer::matrix::{Mat2x2, Mat3x3, Mat4x4};
use rust_raytracer::tuple::point;
use rust_raytracer::tuple::Tuple;

fn fx(v: f64) -> Fx {
    Fx::from_mantissa((v * 1.0e13).round() as i64)
}

fn to_f64(a: Fx) -> f64 {
    (a.m as f64) / 1.0e13
}

fn pt(x: f64, y: f64, z: f64) -> Tuple {
    point(fx(x), fx(y), fx(z))
}

fn mat2(rows: [[f64; 2]; 2]) -> Mat2x2 {
    let mut data = [[fx(0.0); 2]; 2];
    for r in 0..2 {
        for c in 0..2 {
            data[r][c] = fx(rows[r][c]);
        }
    }
    Mat2x2::new(data)
}

fn mat3(rows: [[f64; 3]; 3]) -> Mat3x3 {
    let mut data = [[fx(0.0); 3]; 3];
    for r in 0..3 {
        for c in 0..3 {
            data[r][c] = fx(rows[r][c]);
        }
    }
    Mat3x3::new(data)
}

fn mat4(rows: [[f64; 4]; 4]) -> Mat4x4 {
    let mut data = [[fx(0.0); 4]; 4];
    for r in 0..4 {
        for c in 0..4 {
            data[r][c] = fx(rows[r][c]);
        }
    }
    Mat4x4::new(data)
}

fn assert_mat4x4_near(a: Mat4x4, b: Mat4x4) {
    assert!(rust_raytracer::matrix::assert_mat4x4_near(a, b));
}

#[test]
fn create_2x2_matrix() {
    let m = mat2([[-3.0, 5.0], [1.0, -2.0]]);
    assert_eq!(fx(-3.0), m.data[0][0]);
    assert_eq!(fx(5.0), m.data[0][1]);
    assert_eq!(fx(1.0), m.data[1][0]);
    assert_eq!(fx(-2.0), m.data[1][1]);
}

#[test]
fn create_3x3_matrix() {
    let m = mat3([[-3.0, 5.0, 0.0], [1.0, -2.0, -7.0], [0.0, 1.0, 1.0]]);
    assert_eq!(fx(-3.0), m.data[0][0]);
    assert_eq!(fx(-2.0), m.data[1][1]);
    assert_eq!(fx(1.0), m.data[2][2]);
}

#[test]
fn create_4x4_matrix() {
    let m = mat4([
        [1.0, 2.0, 3.0, 4.0],
        [5.5, 6.5, 7.5, 8.5],
        [9.0, 10.0, 11.0, 12.0],
        [13.5, 14.5, 15.5, 16.5],
    ]);
    assert_eq!(fx(1.0), m.data[0][0]);
    assert_eq!(fx(4.0), m.data[0][3]);
    assert_eq!(fx(5.5), m.data[1][0]);
    assert_eq!(fx(7.5), m.data[1][2]);
    assert_eq!(fx(11.0), m.data[2][2]);
    assert_eq!(fx(13.5), m.data[3][0]);
    assert_eq!(fx(15.5), m.data[3][2]);
}

#[test]
fn matrix_equality() {
    let data = [
        [1.0, 2.0, 3.0, 4.0],
        [5.0, 6.0, 7.0, 8.0],
        [9.0, 8.0, 7.0, 6.0],
        [5.0, 4.0, 3.0, 2.0],
    ];
    let a = mat4(data);
    let b = mat4(data);
    assert_eq!(a, b);
}

#[test]
fn matrix_inequality() {
    let a = mat4([
        [1.0, 2.0, 3.0, 4.0],
        [5.0, 6.0, 7.0, 8.0],
        [9.0, 8.0, 7.0, 6.0],
        [5.0, 4.0, 3.0, 2.0],
    ]);
    let b = mat4([
        [2.0, 3.0, 4.0, 5.0],
        [6.0, 7.0, 8.0, 9.0],
        [8.0, 7.0, 6.0, 5.0],
        [4.0, 3.0, 2.0, 1.0],
    ]);
    assert_ne!(a, b);
}

#[test]
fn multiply_two_matrices() {
    let a = mat4([
        [1.0, 2.0, 3.0, 4.0],
        [5.0, 6.0, 7.0, 8.0],
        [9.0, 8.0, 7.0, 6.0],
        [5.0, 4.0, 3.0, 2.0],
    ]);
    let b = mat4([
        [-2.0, 1.0, 2.0, 3.0],
        [3.0, 2.0, 1.0, -1.0],
        [4.0, 3.0, 6.0, 5.0],
        [1.0, 2.0, 7.0, 8.0],
    ]);
    let expected = mat4([
        [20.0, 22.0, 50.0, 48.0],
        [44.0, 54.0, 114.0, 108.0],
        [40.0, 58.0, 110.0, 102.0],
        [16.0, 26.0, 46.0, 42.0],
    ]);
    assert_eq!(expected, a.mul(b));
}

#[test]
fn matrix_matrix_multiplied_by_tuple() {
    let a = mat4([
        [1.0, 2.0, 3.0, 4.0],
        [2.0, 4.0, 4.0, 2.0],
        [8.0, 6.0, 4.0, 1.0],
        [0.0, 0.0, 0.0, 1.0],
    ]);
    let b = pt(1.0, 2.0, 3.0);
    assert_eq!(pt(18.0, 24.0, 33.0), a.mul_tuple(b));
}

#[test]
fn matrix_2x2_multiplied_by_identity_matrix() {
    let a = mat2([[0.0, 1.0], [1.0, 2.0]]);
    assert_eq!(a, a.mul(Mat2x2::identity()));
}

#[test]
fn matrix_3x3_multiplied_by_identity_matrix() {
    let a = mat3([[0.0, 1.0, 2.0], [1.0, 2.0, 4.0], [2.0, 4.0, 8.0]]);
    assert_eq!(a, a.mul(Mat3x3::identity()));
}

#[test]
fn matrix_4x4_multiplied_by_identity_matrix() {
    let a = mat4([
        [0.0, 1.0, 2.0, 4.0],
        [1.0, 2.0, 4.0, 8.0],
        [2.0, 4.0, 8.0, 16.0],
        [4.0, 8.0, 16.0, 32.0],
    ]);
    assert_eq!(a, a.mul(Mat4x4::identity()));
}

#[test]
fn identity_matrix_multiplied_by_tuple() {
    let a = Tuple { x: fx(1.0), y: fx(2.0), z: fx(3.0), w: fx(4.0) };
    assert_eq!(a, Mat4x4::identity().mul_tuple(a));
}

#[test]
fn transpose_a_matrix() {
    let a = mat4([
        [0.0, 9.0, 3.0, 0.0],
        [9.0, 8.0, 0.0, 8.0],
        [1.0, 8.0, 5.0, 3.0],
        [0.0, 0.0, 5.0, 8.0],
    ]);
    let expected = mat4([
        [0.0, 9.0, 1.0, 0.0],
        [9.0, 8.0, 8.0, 0.0],
        [3.0, 0.0, 5.0, 5.0],
        [0.0, 8.0, 3.0, 8.0],
    ]);
    assert_eq!(expected, a.transpose());
}

#[test]
fn transpose_identify_matrix() {
    let a = Mat4x4::identity();
    assert_eq!(a, a.transpose());
}

#[test]
fn determinant_of_2x2_matrix() {
    let a = mat2([[1.0, 5.0], [-3.0, 2.0]]);
    assert_eq!(fx(17.0), a.determinant());
}

#[test]
fn submatrix_of_3x3() {
    let a = mat3([[1.0, 5.0, 0.0], [-3.0, 2.0, 7.0], [0.0, 6.0, -3.0]]);
    let expected = mat2([[-3.0, 2.0], [0.0, 6.0]]);
    assert_eq!(expected, a.submatrix(0, 2));
}

#[test]
fn submatrix_of_4x4() {
    let a = mat4([
        [-6.0, 1.0, 1.0, 6.0],
        [-8.0, 5.0, 8.0, 6.0],
        [-1.0, 0.0, 8.0, 2.0],
        [-7.0, 1.0, -1.0, 1.0],
    ]);
    let expected = mat3([[-6.0, 1.0, 6.0], [-8.0, 8.0, 6.0], [-7.0, -1.0, 1.0]]);
    assert_eq!(expected, a.submatrix(2, 1));
}

#[test]
fn minor_of_3x3() {
    let a = mat3([[3.0, 5.0, 0.0], [2.0, -1.0, -7.0], [6.0, -1.0, 5.0]]);
    let b = a.submatrix(1, 0);
    assert_eq!(fx(25.0), b.determinant());
    assert_eq!(fx(25.0), a.minor(1, 0));
}

#[test]
fn cofactor_of_3x3() {
    let a = mat3([[3.0, 5.0, 0.0], [2.0, -1.0, -7.0], [6.0, -1.0, 5.0]]);
    assert_eq!(fx(-12.0), a.minor(0, 0));
    assert_eq!(fx(-12.0), a.cofactor(0, 0));
    assert_eq!(fx(25.0), a.minor(1, 0));
    assert_eq!(fx(-25.0), a.cofactor(1, 0));
}

#[test]
fn determinant_of_3x3_matrix() {
    let a = mat3([[1.0, 2.0, 6.0], [-5.0, 8.0, -4.0], [2.0, 6.0, 4.0]]);
    assert_eq!(fx(56.0), a.cofactor(0, 0));
    assert_eq!(fx(12.0), a.cofactor(0, 1));
    assert_eq!(fx(-46.0), a.cofactor(0, 2));
    assert_eq!(fx(-196.0), a.determinant());
}

#[test]
fn determinant_of_4x4_matrix() {
    let a = mat4([
        [-2.0, -8.0, 3.0, 5.0],
        [-3.0, 1.0, 7.0, 3.0],
        [1.0, 2.0, -9.0, 6.0],
        [-6.0, 7.0, 7.0, -9.0],
    ]);
    assert_eq!(fx(690.0), a.cofactor(0, 0));
    assert_eq!(fx(447.0), a.cofactor(0, 1));
    assert_eq!(fx(210.0), a.cofactor(0, 2));
    assert_eq!(fx(51.0), a.cofactor(0, 3));
    assert_eq!(fx(-4071.0), a.determinant());
}

#[test]
fn invertible_matrix_is_invertible() {
    let a = mat4([
        [6.0, 4.0, 4.0, 4.0],
        [5.0, 5.0, 7.0, 6.0],
        [4.0, -9.0, 3.0, -7.0],
        [9.0, 1.0, 7.0, -6.0],
    ]);
    assert_eq!(fx(-2120.0), a.determinant());
    assert_eq!(true, a.invertible());
}

#[test]
fn noninvertible_matrix_is_not_invertible() {
    let a = mat4([
        [-4.0, 2.0, -2.0, -3.0],
        [9.0, 6.0, 2.0, 6.0],
        [0.0, -5.0, 1.0, -5.0],
        [0.0, 0.0, 0.0, 0.0],
    ]);
    assert_eq!(fx(0.0), a.determinant());
    assert_eq!(false, a.invertible());
}

#[test]
fn inverse_of_matrix() {
    let a = mat4([
        [-5.0, 2.0, 6.0, -8.0],
        [1.0, -5.0, 1.0, 8.0],
        [7.0, 7.0, -6.0, -7.0],
        [1.0, -3.0, 7.0, 4.0],
    ]);
    let expected = mat4([
        [0.21805, 0.45113, 0.24060, -0.04511],
        [-0.80827, -1.45677, -0.44361, 0.52068],
        [-0.07895, -0.22368, -0.05263, 0.19737],
        [-0.52256, -0.81391, -0.30075, 0.30639],
    ]);

    let b = a.inverse().unwrap();
    assert_eq!(fx(532.0), a.determinant());
    assert_eq!(fx(-160.0), a.cofactor(2, 3));
    assert!((to_f64(b.data[3][2]) - (-160.0 / 532.0)).abs() < 1.0e-12);
    assert_eq!(fx(105.0), a.cofactor(3, 2));
    assert!((to_f64(b.data[2][3]) - (105.0 / 532.0)).abs() < 1.0e-12);
    assert_mat4x4_near(expected, b);
}

#[test]
fn inverse_of_another_matrix() {
    let a = mat4([
        [8.0, -5.0, 9.0, 2.0],
        [7.0, 5.0, 6.0, 1.0],
        [-6.0, 0.0, 9.0, 6.0],
        [-3.0, 0.0, -9.0, -4.0],
    ]);
    let expected = mat4([
        [-0.15385, -0.15385, -0.28205, -0.53846],
        [-0.07692, 0.12308, 0.02564, 0.03077],
        [0.35897, 0.35897, 0.43590, 0.92308],
        [-0.69231, -0.69231, -0.76923, -1.92308],
    ]);
    assert_mat4x4_near(expected, a.inverse().unwrap());
}

#[test]
fn inverse_of_a_third_matrix() {
    let a = mat4([
        [9.0, 3.0, 0.0, 9.0],
        [-5.0, -2.0, -6.0, -3.0],
        [-4.0, 9.0, 6.0, 4.0],
        [-7.0, 6.0, 6.0, 2.0],
    ]);
    let expected = mat4([
        [-0.04074, -0.07778, 0.14444, -0.22222],
        [-0.07778, 0.03333, 0.36667, -0.33333],
        [-0.02901, -0.14630, -0.10926, 0.12963],
        [0.17778, 0.06667, -0.26667, 0.33333],
    ]);
    assert_mat4x4_near(expected, a.inverse().unwrap());
}

#[test]
fn inverse_of_a_noninvertible_matrix() {
    let a = mat4([
        [-4.0, 2.0, -2.0, -3.0],
        [9.0, 6.0, 2.0, 6.0],
        [0.0, -5.0, 1.0, -5.0],
        [0.0, 0.0, 0.0, 0.0],
    ]);
    match a.inverse() {
        Err(s) => assert_eq!("Matrix is not invertible", s),
        _ => assert!(false),
    }
}

#[test]
fn multiplying_a_product_by_its_inverse() {
    let a = mat4([
        [3.0, -9.0, 7.0, 3.0],
        [3.0, -8.0, 2.0, -9.0],
        [-4.0, 4.0, 4.0, 1.0],
        [-6.0, 5.0, -1.0, 1.0],
    ]);
    let b = mat4([
        [8.0, 2.0, 2.0, 2.0],
        [3.0, -1.0, 7.0, 0.0],
        [7.0, 0.0, 5.0, 4.0],
        [6.0, -2.0, 0.0, 5.0],
    ]);
    let c = a.mul(b);
    let d = c.mul(b.inverse().unwrap());
    assert_eq!(a, d);
}
