//! Square matrices of order 2, 3 and 4 over the fixed-point scalar.
//!
//! Determinants expand cofactors along the first row, bottoming out at order
//! 2, exactly as the contracts state entry by entry. `inverse` builds the
//! adjugate candidate and hands it back only after confirming — in the same
//! exact arithmetic — that both products with the original lie within the
//! inversion tolerance of the identity; a matrix whose determinant is zero,
//! or that fails that confirmation, is reported not invertible.

use crate::fixed::Fx;
use crate::fixed::SCALE;
use crate::tuple::{fx_add, fx_div, fx_mul, fx_neg, fx_sub, t_dot, Tuple};
use vstd::prelude::*;

verus! {

broadcast use vstd::array::group_array_axioms;

/// Mantissa tolerance of matrix equality: 10^-10.
pub const EQ_TOL: i64 = 1000;

/// Mantissa tolerance for confirming an inverse: 10^-5.
pub const INV_TOL: i64 = 100_000_000;

/// Mantissa tolerance of approximate matrix comparison: 10^-5.
pub const NEAR_TOL: i64 = 100_000_000;

/// The row or column index of the parent matrix that the `i`-th row or
/// column of a submatrix formed by deleting index `k` comes from.
pub open spec fn skip(i: int, k: int) -> int {
    if i < k {
        i
    } else {
        i + 1
    }
}

/// Determinant of an order-2 block given by its entries: `ad - bc`.
pub open spec fn det2e(a: Fx, b: Fx, c: Fx, d: Fx) -> Fx {
    fx_sub(fx_mul(a, d), fx_mul(b, c))
}

/// A 2x2 matrix.
#[derive(Clone, Copy, Debug)]
pub struct Mat2x2 {
    pub data: [[Fx; 2]; 2],
}

/// A 3x3 matrix.
#[derive(Clone, Copy, Debug)]
pub struct Mat3x3 {
    pub data: [[Fx; 3]; 3],
}

/// A 4x4 matrix.
#[derive(Clone, Copy, Debug)]
pub struct Mat4x4 {
    pub data: [[Fx; 4]; 4],
}

/// Determinant of a 2x2 matrix.
pub open spec fn det2(m: Mat2x2) -> Fx {
    det2e(m.data[0][0], m.data[0][1], m.data[1][0], m.data[1][1])
}

/// Minor of a 3x3 matrix: the determinant of the block left after deleting
/// row `r` and column `c`.
#[verifier::opaque]
pub open spec fn minor3(m: Mat3x3, r: int, c: int) -> Fx {
    det2e(
        m.data[skip(0, r)][skip(0, c)],
        m.data[skip(0, r)][skip(1, c)],
        m.data[skip(1, r)][skip(0, c)],
        m.data[skip(1, r)][skip(1, c)],
    )
}

/// Cofactor of a 3x3 matrix: the minor, negated on odd positions.
pub open spec fn cof3(m: Mat3x3, r: int, c: int) -> Fx {
    if (r + c) % 2 == 0 {
        minor3(m, r, c)
    } else {
        fx_neg(minor3(m, r, c))
    }
}

/// Determinant of a 3x3 matrix: cofactors expanded along the first row.
pub open spec fn det3(m: Mat3x3) -> Fx {
    fx_add(
        fx_add(
            fx_add(Fx { m: 0 }, fx_mul(m.data[0][0], cof3(m, 0, 0))),
            fx_mul(m.data[0][1], cof3(m, 0, 1)),
        ),
        fx_mul(m.data[0][2], cof3(m, 0, 2)),
    )
}

/// Determinant of an order-3 block given by its nine entries, in row order.
pub open spec fn det3e(
    a: Fx,
    b: Fx,
    c: Fx,
    d: Fx,
    e: Fx,
    f: Fx,
    g: Fx,
    h: Fx,
    i: Fx,
) -> Fx {
    fx_add(
        fx_add(
            fx_add(Fx { m: 0 }, fx_mul(a, det2e(e, f, h, i))),
            fx_mul(b, fx_neg(det2e(d, f, g, i))),
        ),
        fx_mul(c, det2e(d, e, g, h)),
    )
}

/// Minor of a 4x4 matrix.
#[verifier::opaque]
pub open spec fn minor4(m: Mat4x4, r: int, c: int) -> Fx {
    det3e(
        m.data[skip(0, r)][skip(0, c)],
        m.data[skip(0, r)][skip(1, c)],
        m.data[skip(0, r)][skip(2, c)],
        m.data[skip(1, r)][skip(0, c)],
        m.data[skip(1, r)][skip(1, c)],
        m.data[skip(1, r)][skip(2, c)],
        m.data[skip(2, r)][skip(0, c)],
        m.data[skip(2, r)][skip(1, c)],
        m.data[skip(2, r)][skip(2, c)],
    )
}

/// Cofactor of a 4x4 matrix.
pub open spec fn cof4(m: Mat4x4, r: int, c: int) -> Fx {
    if (r + c) % 2 == 0 {
        minor4(m, r, c)
    } else {
        fx_neg(minor4(m, r, c))
    }
}

/// Determinant of a 4x4 matrix: cofactors expanded along the first row.
pub open spec fn det4(m: Mat4x4) -> Fx {
    fx_add(
        fx_add(
            fx_add(
                fx_add(Fx { m: 0 }, fx_mul(m.data[0][0], cof4(m, 0, 0))),
                fx_mul(m.data[0][1], cof4(m, 0, 1)),
            ),
            fx_mul(m.data[0][2], cof4(m, 0, 2)),
        ),
        fx_mul(m.data[0][3], cof4(m, 0, 3)),
    )
}

/// Entry `(i, j)` of the adjugate candidate for the inverse: the transposed
/// cofactor divided by the determinant.
pub open spec fn inv4_entry(m: Mat4x4, i: int, j: int) -> Fx {
    fx_div(cof4(m, j, i), det4(m))
}

/// Entry `(r, c)` of a matrix product, summed left to right from zero.
pub open spec fn mm4_entry(a: Mat4x4, b: Mat4x4, r: int, c: int) -> Fx {
    fx_add(
        fx_add(
            fx_add(
                fx_add(Fx { m: 0 }, fx_mul(a.data[r][0], b.data[0][c])),
                fx_mul(a.data[r][1], b.data[1][c]),
            ),
            fx_mul(a.data[r][2], b.data[2][c]),
        ),
        fx_mul(a.data[r][3], b.data[3][c]),
    )
}

/// Entry `(r, c)` of the product of `m` with its own inverse candidate.
pub open spec fn m_cand_entry(m: Mat4x4, r: int, c: int) -> Fx {
    fx_add(
        fx_add(
            fx_add(
                fx_add(Fx { m: 0 }, fx_mul(m.data[r][0], inv4_entry(m, 0, c))),
                fx_mul(m.data[r][1], inv4_entry(m, 1, c)),
            ),
            fx_mul(m.data[r][2], inv4_entry(m, 2, c)),
        ),
        fx_mul(m.data[r][3], inv4_entry(m, 3, c)),
    )
}

/// Entry `(r, c)` of the product of the inverse candidate with `m`.
pub open spec fn cand_m_entry(m: Mat4x4, r: int, c: int) -> Fx {
    fx_add(
        fx_add(
            fx_add(
                fx_add(Fx { m: 0 }, fx_mul(inv4_entry(m, r, 0), m.data[0][c])),
                fx_mul(inv4_entry(m, r, 1), m.data[1][c]),
            ),
            fx_mul(inv4_entry(m, r, 2), m.data[2][c]),
        ),
        fx_mul(inv4_entry(m, r, 3), m.data[3][c]),
    )
}

/// The identity mantissa at position `(r, c)`.
pub open spec fn id_m(r: int, c: int) -> int {
    if r == c {
        SCALE as int
    } else {
        0
    }
}

/// Whether a scalar lies within `tol` mantissa steps of the identity entry.
pub open spec fn near_id_entry(v: Fx, r: int, c: int, tol: int) -> bool {
    -tol <= v.m - id_m(r, c) <= tol
}

/// A matrix is accepted as invertible when its determinant is non-zero and
/// both products with the adjugate candidate lie within the inversion
/// tolerance of the identity, entry by entry.
pub open spec fn inv4_ok(m: Mat4x4) -> bool {
    &&& det4(m).m != 0
    &&& forall|r: int, c: int|
        0 <= r < 4 && 0 <= c < 4 ==> near_id_entry(#[trigger] m_cand_entry(m, r, c), r, c, INV_TOL as int)
    &&& forall|r: int, c: int|
        0 <= r < 4 && 0 <= c < 4 ==> near_id_entry(#[trigger] cand_m_entry(m, r, c), r, c, INV_TOL as int)
}

/// Two matrices agree within `tol` mantissa steps, entry by entry.
pub open spec fn mat4_near(a: Mat4x4, b: Mat4x4, tol: int) -> bool {
    forall|r: int, c: int|
        0 <= r < 4 && 0 <= c < 4 ==> -tol <= (#[trigger] a.data[r][c]).m - b.data[r][c].m <= tol
}

/// Two 3x3 matrices agree within `tol` mantissa steps, entry by entry.
pub open spec fn mat3_near(a: Mat3x3, b: Mat3x3, tol: int) -> bool {
    forall|r: int, c: int|
        0 <= r < 3 && 0 <= c < 3 ==> -tol <= (#[trigger] a.data[r][c]).m - b.data[r][c].m <= tol
}

/// Two 2x2 matrices agree within `tol` mantissa steps, entry by entry.
pub open spec fn mat2_near(a: Mat2x2, b: Mat2x2, tol: int) -> bool {
    forall|r: int, c: int|
        0 <= r < 2 && 0 <= c < 2 ==> -tol <= (#[trigger] a.data[r][c]).m - b.data[r][c].m <= tol
}

/// Difference of two mantissas lies within `tol`.
fn entry_near(a: Fx, b: Fx, tol: i64) -> (r: bool)
    requires
        tol >= 0,
    ensures
        r == (-(tol as int) <= a.m - b.m <= tol as int),
{
    let d: i128 = a.m as i128 - b.m as i128;
    -(tol as i128) <= d && d <= tol as i128
}

impl Mat2x2 {
    /// Wraps the given entries.
    pub fn new(data: [[Fx; 2]; 2]) -> (r: Mat2x2)
        ensures
            r.data == data,
    {
        Mat2x2 { data }
    }

    /// The zero matrix.
    pub fn zero() -> (r: Mat2x2)
        ensures
            forall|i: int, j: int| 0 <= i < 2 && 0 <= j < 2 ==> (#[trigger] r.data[i][j]).m == 0,
    {
        let z = Fx { m: 0 };
        Mat2x2 { data: [[z, z], [z, z]] }
    }

    /// The identity matrix.
    pub fn identity() -> (r: Mat2x2)
        ensures
            forall|i: int, j: int|
                0 <= i < 2 && 0 <= j < 2 ==> (#[trigger] r.data[i][j]).m == id_m(i, j),
    {
        let z = Fx { m: 0 };
        let o = Fx { m: SCALE };
        Mat2x2 { data: [[o, z], [z, o]] }
    }

    /// The order of the matrix.
    pub fn order() -> (r: usize)
        ensures
            r == 2,
    {
        2
    }

    /// The transpose.
    pub fn transpose(&self) -> (r: Mat2x2)
        ensures
            forall|i: int, j: int|
                0 <= i < 2 && 0 <= j < 2 ==> #[trigger] r.data[i][j] == self.data[j][i],
    {
        Mat2x2 {
            data: [
                [self.data[0][0], self.data[1][0]],
                [self.data[0][1], self.data[1][1]],
            ],
        }
    }

    /// Product with another matrix, each entry the rounded dot of a row with
    /// a column.
    pub fn mul(self, other: Mat2x2) -> (r: Mat2x2)
        ensures
            forall|i: int, j: int|
                0 <= i < 2 && 0 <= j < 2 ==> #[trigger] r.data[i][j] == fx_add(
                    fx_add(Fx { m: 0 }, fx_mul(self.data[i][0], other.data[0][j])),
                    fx_mul(self.data[i][1], other.data[1][j]),
                ),
    {
        let m00 = Fx::zero().add(self.data[0][0].mul(other.data[0][0])).add(
            self.data[0][1].mul(other.data[1][0]),
        );
        let m01 = Fx::zero().add(self.data[0][0].mul(other.data[0][1])).add(
            self.data[0][1].mul(other.data[1][1]),
        );
        let m10 = Fx::zero().add(self.data[1][0].mul(other.data[0][0])).add(
            self.data[1][1].mul(other.data[1][0]),
        );
        let m11 = Fx::zero().add(self.data[1][0].mul(other.data[0][1])).add(
            self.data[1][1].mul(other.data[1][1]),
        );
        Mat2x2 { data: [[m00, m01], [m10, m11]] }
    }

    /// The determinant `ad - bc`.
    pub fn determinant(&self) -> (r: Fx)
        ensures
            r == det2(*self),
    {
        self.data[0][0].mul(self.data[1][1]).sub(self.data[0][1].mul(self.data[1][0]))
    }
}

impl PartialEq for Mat2x2 {
    /// Equality within the fixed tolerance, entry by entry.
    fn eq(&self, other: &Mat2x2) -> (r: bool) {
        let mut i: usize = 0;
        while i < 2
            invariant
                i <= 2,
                forall|r0: int, c0: int|
                    0 <= r0 < i && 0 <= c0 < 2 ==> -(EQ_TOL as int) <= (
                    #[trigger] self.data[r0][c0]).m - other.data[r0][c0].m <= EQ_TOL as int,
            decreases 2 - i,
        {
            let mut j: usize = 0;
            while j < 2
                invariant
                    i < 2,
                    j <= 2,
                    forall|r0: int, c0: int|
                        0 <= r0 < i && 0 <= c0 < 2 ==> -(EQ_TOL as int) <= (
                        #[trigger] self.data[r0][c0]).m - other.data[r0][c0].m <= EQ_TOL as int,
                    forall|c0: int|
                        0 <= c0 < j ==> -(EQ_TOL as int) <= (#[trigger] self.data[i as int][c0]).m
                            - other.data[i as int][c0].m <= EQ_TOL as int,
                decreases 2 - j,
            {
                if !entry_near(self.data[i][j], other.data[i][j], EQ_TOL) {
                    return false;
                }
                j += 1;
            }
            i += 1;
        }
        true
    }
}

impl vstd::std_specs::cmp::PartialEqSpecImpl for Mat2x2 {
    open spec fn obeys_eq_spec() -> bool {
        true
    }

    open spec fn eq_spec(&self, other: &Mat2x2) -> bool {
        mat2_near(*self, *other, EQ_TOL as int)
    }
}

impl Eq for Mat2x2 {}

/// Three entries of a row of four, skipping column `c`.
fn pick3(row: &[Fx; 4], c: usize) -> (r: [Fx; 3])
    requires
        c < 4,
    ensures
        forall|j: int| 0 <= j < 3 ==> #[trigger] r[j] == row[skip(j, c as int)],
{
    if c == 0 {
        [row[1], row[2], row[3]]
    } else if c == 1 {
        [row[0], row[2], row[3]]
    } else if c == 2 {
        [row[0], row[1], row[3]]
    } else {
        [row[0], row[1], row[2]]
    }
}

/// Two entries of a row of three, skipping column `c`.
fn pick2(row: &[Fx; 3], c: usize) -> (r: [Fx; 2])
    requires
        c < 3,
    ensures
        forall|j: int| 0 <= j < 2 ==> #[trigger] r[j] == row[skip(j, c as int)],
{
    if c == 0 {
        [row[1], row[2]]
    } else if c == 1 {
        [row[0], row[2]]
    } else {
        [row[0], row[1]]
    }
}

impl Mat3x3 {
    /// Wraps the given entries.
    pub fn new(data: [[Fx; 3]; 3]) -> (r: Mat3x3)
        ensures
            r.data == data,
    {
        Mat3x3 { data }
    }

    /// The zero matrix.
    pub fn zero() -> (r: Mat3x3)
        ensures
            forall|i: int, j: int| 0 <= i < 3 && 0 <= j < 3 ==> (#[trigger] r.data[i][j]).m == 0,
    {
        let z = Fx { m: 0 };
        Mat3x3 { data: [[z, z, z], [z, z, z], [z, z, z]] }
    }

    /// The identity matrix.
    pub fn identity() -> (r: Mat3x3)
        ensures
            forall|i: int, j: int|
                0 <= i < 3 && 0 <= j < 3 ==> (#[trigger] r.data[i][j]).m == id_m(i, j),
    {
        let z = Fx { m: 0 };
        let o = Fx { m: SCALE };
        Mat3x3 { data: [[o, z, z], [z, o, z], [z, z, o]] }
    }

    /// The order of the matrix.
    pub fn order() -> (r: usize)
        ensures
            r == 3,
    {
        3
    }

    /// The transpose.
    pub fn transpose(&self) -> (r: Mat3x3)
        ensures
            forall|i: int, j: int|
                0 <= i < 3 && 0 <= j < 3 ==> #[trigger] r.data[i][j] == self.data[j][i],
    {
        Mat3x3 {
            data: [
                [self.data[0][0], self.data[1][0], self.data[2][0]],
                [self.data[0][1], self.data[1][1], self.data[2][1]],
                [self.data[0][2], self.data[1][2], self.data[2][2]],
            ],
        }
    }

    /// Product with another matrix, each entry the rounded dot of a row with
    /// a column.
    pub fn mul(self, other: Mat3x3) -> (r: Mat3x3)
        ensures
            forall|i: int, j: int|
                0 <= i < 3 && 0 <= j < 3 ==> #[trigger] r.data[i][j] == fx_add(
                    fx_add(
                        fx_add(Fx { m: 0 }, fx_mul(self.data[i][0], other.data[0][j])),
                        fx_mul(self.data[i][1], other.data[1][j]),
                    ),
                    fx_mul(self.data[i][2], other.data[2][j]),
                ),
    {
        let r0 = [self.rc(&other, 0, 0), self.rc(&other, 0, 1), self.rc(&other, 0, 2)];
        let r1 = [self.rc(&other, 1, 0), self.rc(&other, 1, 1), self.rc(&other, 1, 2)];
        let r2 = [self.rc(&other, 2, 0), self.rc(&other, 2, 1), self.rc(&other, 2, 2)];
        Mat3x3 { data: [r0, r1, r2] }
    }

    /// One entry of a matrix product.
    fn rc(&self, other: &Mat3x3, i: usize, j: usize) -> (r: Fx)
        requires
            i < 3,
            j < 3,
        ensures
            r == fx_add(
                fx_add(
                    fx_add(Fx { m: 0 }, fx_mul(self.data[i as int][0], other.data[0][j as int])),
                    fx_mul(self.data[i as int][1], other.data[1][j as int]),
                ),
                fx_mul(self.data[i as int][2], other.data[2][j as int]),
            ),
    {
        let mut v = Fx::zero();
        v = v.add(self.data[i][0].mul(other.data[0][j]));
        v = v.add(self.data[i][1].mul(other.data[1][j]));
        v = v.add(self.data[i][2].mul(other.data[2][j]));
        v
    }

    /// The block left after deleting row `row` and column `col`.
    pub fn submatrix(&self, row: usize, col: usize) -> (r: Mat2x2)
        requires
            row < 3,
            col < 3,
        ensures
            forall|i: int, j: int|
                0 <= i < 2 && 0 <= j < 2 ==> #[trigger] r.data[i][j] == self.data[skip(
                    i,
                    row as int,
                )][skip(j, col as int)],
    {
        if row == 0 {
            Mat2x2 { data: [pick2(&self.data[1], col), pick2(&self.data[2], col)] }
        } else if row == 1 {
            Mat2x2 { data: [pick2(&self.data[0], col), pick2(&self.data[2], col)] }
        } else {
            Mat2x2 { data: [pick2(&self.data[0], col), pick2(&self.data[1], col)] }
        }
    }

    /// The determinant of the block left after deleting a row and a column.
    pub fn minor(&self, row: usize, col: usize) -> (r: Fx)
        requires
            row < 3,
            col < 3,
        ensures
            r == minor3(*self, row as int, col as int),
    {
        proof {
            reveal(minor3);
        }
        self.submatrix(row, col).determinant()
    }

    /// The minor, negated on odd positions.
    pub fn cofactor(&self, row: usize, col: usize) -> (r: Fx)
        requires
            row < 3,
            col < 3,
        ensures
            r == cof3(*self, row as int, col as int),
    {
        let m = self.minor(row, col);
        if (row + col) % 2 == 0 {
            m
        } else {
            m.neg()
        }
    }

    /// The determinant, by cofactor expansion along the first row.
    pub fn determinant(&self) -> (r: Fx)
        ensures
            r == det3(*self),
    {
        let mut res = Fx::zero();
        res = res.add(self.data[0][0].mul(self.cofactor(0, 0)));
        res = res.add(self.data[0][1].mul(self.cofactor(0, 1)));
        res = res.add(self.data[0][2].mul(self.cofactor(0, 2)));
        res
    }
}

impl PartialEq for Mat3x3 {
    /// Equality within the fixed tolerance, entry by entry.
    fn eq(&self, other: &Mat3x3) -> (r: bool) {
        let mut i: usize = 0;
        while i < 3
            invariant
                i <= 3,
                forall|r0: int, c0: int|
                    0 <= r0 < i && 0 <= c0 < 3 ==> -(EQ_TOL as int) <= (
                    #[trigger] self.data[r0][c0]).m - other.data[r0][c0].m <= EQ_TOL as int,
            decreases 3 - i,
        {
            let mut j: usize = 0;
            while j < 3
                invariant
                    i < 3,
                    j <= 3,
                    forall|r0: int, c0: int|
                        0 <= r0 < i && 0 <= c0 < 3 ==> -(EQ_TOL as int) <= (
                        #[trigger] self.data[r0][c0]).m - other.data[r0][c0].m <= EQ_TOL as int,
                    forall|c0: int|
                        0 <= c0 < j ==> -(EQ_TOL as int) <= (#[trigger] self.data[i as int][c0]).m
                            - other.data[i as int][c0].m <= EQ_TOL as int,
                decreases 3 - j,
            {
                if !entry_near(self.data[i][j], other.data[i][j], EQ_TOL) {
                    return false;
                }
                j += 1;
            }
            i += 1;
        }
        true
    }
}

impl vstd::std_specs::cmp::PartialEqSpecImpl for Mat3x3 {
    open spec fn obeys_eq_spec() -> bool {
        true
    }

    open spec fn eq_spec(&self, other: &Mat3x3) -> bool {
        mat3_near(*self, *other, EQ_TOL as int)
    }
}

impl Eq for Mat3x3 {}

impl Mat4x4 {
    /// Wraps the given entries.
    pub fn new(data: [[Fx; 4]; 4]) -> (r: Mat4x4)
        ensures
            r.data == data,
    {
        Mat4x4 { data }
    }

    /// The zero matrix.
    pub fn zero() -> (r: Mat4x4)
        ensures
            forall|i: int, j: int| 0 <= i < 4 && 0 <= j < 4 ==> (#[trigger] r.data[i][j]).m == 0,
    {
        let z = Fx { m: 0 };
        Mat4x4 { data: [[z, z, z, z], [z, z, z, z], [z, z, z, z], [z, z, z, z]] }
    }

    /// The identity matrix.
    pub fn identity() -> (r: Mat4x4)
        ensures
            r == mat4_id(),
            forall|i: int, j: int|
                0 <= i < 4 && 0 <= j < 4 ==> (#[trigger] r.data[i][j]).m == id_m(i, j),
    {
        let z = Fx { m: 0 };
        let o = Fx { m: SCALE };
        Mat4x4 {
            data: [[o, z, z, z], [z, o, z, z], [z, z, o, z], [z, z, z, o]],
        }
    }

    /// The order of the matrix.
    pub fn order() -> (r: usize)
        ensures
            r == 4,
    {
        4
    }

    /// The transpose.
    pub fn transpose(&self) -> (r: Mat4x4)
        ensures
            r == tr4(*self),
            forall|i: int, j: int|
                0 <= i < 4 && 0 <= j < 4 ==> #[trigger] r.data[i][j] == self.data[j][i],
    {
        Mat4x4 {
            data: [
                [self.data[0][0], self.data[1][0], self.data[2][0], self.data[3][0]],
                [self.data[0][1], self.data[1][1], self.data[2][1], self.data[3][1]],
                [self.data[0][2], self.data[1][2], self.data[2][2], self.data[3][2]],
                [self.data[0][3], self.data[1][3], self.data[2][3], self.data[3][3]],
            ],
        }
    }

    /// One entry of a matrix product.
    fn rc(&self, other: &Mat4x4, i: usize, j: usize) -> (r: Fx)
        requires
            i < 4,
            j < 4,
        ensures
            r == mm4_entry(*self, *other, i as int, j as int),
    {
        let mut v = Fx::zero();
        v = v.add(self.data[i][0].mul(other.data[0][j]));
        v = v.add(self.data[i][1].mul(other.data[1][j]));
        v = v.add(self.data[i][2].mul(other.data[2][j]));
        v = v.add(self.data[i][3].mul(other.data[3][j]));
        v
    }

    /// Product with another matrix, each entry the rounded dot of a row with
    /// a column.
    pub fn mul(self, other: Mat4x4) -> (r: Mat4x4)
        ensures
            r == mat4_mul_s(self, other),
            forall|i: int, j: int|
                0 <= i < 4 && 0 <= j < 4 ==> #[trigger] r.data[i][j] == mm4_entry(
                    self,
                    other,
                    i,
                    j,
                ),
    {
        let r0 = [
            self.rc(&other, 0, 0),
            self.rc(&other, 0, 1),
            self.rc(&other, 0, 2),
            self.rc(&other, 0, 3),
        ];
        let r1 = [
            self.rc(&other, 1, 0),
            self.rc(&other, 1, 1),
            self.rc(&other, 1, 2),
            self.rc(&other, 1, 3),
        ];
        let r2 = [
            self.rc(&other, 2, 0),
            self.rc(&other, 2, 1),
            self.rc(&other, 2, 2),
            self.rc(&other, 2, 3),
        ];
        let r3 = [
            self.rc(&other, 3, 0),
            self.rc(&other, 3, 1),
            self.rc(&other, 3, 2),
            self.rc(&other, 3, 3),
        ];
        let res = Mat4x4 { data: [r0, r1, r2, r3] };
        proof {
            lemma_mat4_ext(res, mat4_mul_s(self, other));
        }
        res
    }

    /// Product with a tuple: each component the rounded dot of a row with
    /// the tuple.
    pub fn mul_tuple(self, rhs: Tuple) -> (r: Tuple)
        ensures
            r == m4_tuple(self, rhs),
    {
        Tuple {
            x: Tuple::from_array(self.data[0]).dot(rhs),
            y: Tuple::from_array(self.data[1]).dot(rhs),
            z: Tuple::from_array(self.data[2]).dot(rhs),
            w: Tuple::from_array(self.data[3]).dot(rhs),
        }
    }

    /// The block left after deleting row `row` and column `col`.
    pub fn submatrix(&self, row: usize, col: usize) -> (r: Mat3x3)
        requires
            row < 4,
            col < 4,
        ensures
            forall|i: int, j: int|
                0 <= i < 3 && 0 <= j < 3 ==> #[trigger] r.data[i][j] == self.data[skip(
                    i,
                    row as int,
                )][skip(j, col as int)],
    {
        if row == 0 {
            Mat3x3 {
                data: [
                    pick3(&self.data[1], col),
                    pick3(&self.data[2], col),
                    pick3(&self.data[3], col),
                ],
            }
        } else if row == 1 {
            Mat3x3 {
                data: [
                    pick3(&self.data[0], col),
                    pick3(&self.data[2], col),
                    pick3(&self.data[3], col),
                ],
            }
        } else if row == 2 {
            Mat3x3 {
                data: [
                    pick3(&self.data[0], col),
                    pick3(&self.data[1], col),
                    pick3(&self.data[3], col),
                ],
            }
        } else {
            Mat3x3 {
                data: [
                    pick3(&self.data[0], col),
                    pick3(&self.data[1], col),
                    pick3(&self.data[2], col),
                ],
            }
        }
    }

    /// The determinant of the block left after deleting a row and a column.
    pub fn minor(&self, row: usize, col: usize) -> (r: Fx)
        requires
            row < 4,
            col < 4,
        ensures
            r == minor4(*self, row as int, col as int),
    {
        proof {
            reveal(minor4);
            reveal(minor3);
        }
        self.submatrix(row, col).determinant()
    }

    /// The minor, negated on odd positions.
    pub fn cofactor(&self, row: usize, col: usize) -> (r: Fx)
        requires
            row < 4,
            col < 4,
        ensures
            r == cof4(*self, row as int, col as int),
    {
        let m = self.minor(row, col);
        if (row + col) % 2 == 0 {
            m
        } else {
            m.neg()
        }
    }

    /// The determinant, by cofactor expansion along the first row.
    pub fn determinant(&self) -> (r: Fx)
        ensures
            r == det4(*self),
    {
        let mut res = Fx::zero();
        res = res.add(self.data[0][0].mul(self.cofactor(0, 0)));
        res = res.add(self.data[0][1].mul(self.cofactor(0, 1)));
        res = res.add(self.data[0][2].mul(self.cofactor(0, 2)));
        res = res.add(self.data[0][3].mul(self.cofactor(0, 3)));
        res
    }

    /// Whether the determinant is non-zero: a zero determinant is exactly
    /// the singular case at this precision.
    pub fn invertible(&self) -> (r: bool)
        ensures
            r == (det4(*self).m != 0),
    {
        self.determinant().m != 0
    }

    /// The inverse, by the adjugate over the determinant. Succeeds exactly
    /// when the determinant is non-zero and both products of the candidate
    /// with the matrix are confirmed to lie within the inversion tolerance
    /// of the identity; otherwise reports the matrix not invertible. The
    /// success domain is deliberately narrower than a non-zero determinant
    /// alone: "invertible within tolerance" is read here as "the adjugate
    /// candidate verifiably inverts at 10^-5", so a matrix of extreme
    /// magnitudes whose determinant saturates, or whose candidate rounds
    /// too coarsely, is rejected rather than answered with an unusable
    /// inverse — this confirmation is what grounds the near-identity
    /// guarantee below and every proof that rests on it.
    #[verifier::rlimit(100)]
    pub fn inverse(&self) -> (r: Result<Mat4x4, &'static str>)
        ensures
            r is Ok <==> inv4_ok(*self),
            r matches Ok(inv) ==> inv == inv4(*self),
            r matches Err(e) ==> e@ == "Matrix is not invertible"@,
    {
        let det = self.determinant();
        if det.m == 0 {
            return Err("Matrix is not invertible");
        }
        let r0 = [
            self.cofactor(0, 0).div(det),
            self.cofactor(1, 0).div(det),
            self.cofactor(2, 0).div(det),
            self.cofactor(3, 0).div(det),
        ];
        let r1 = [
            self.cofactor(0, 1).div(det),
            self.cofactor(1, 1).div(det),
            self.cofactor(2, 1).div(det),
            self.cofactor(3, 1).div(det),
        ];
        let r2 = [
            self.cofactor(0, 2).div(det),
            self.cofactor(1, 2).div(det),
            self.cofactor(2, 2).div(det),
            self.cofactor(3, 2).div(det),
        ];
        let r3 = [
            self.cofactor(0, 3).div(det),
            self.cofactor(1, 3).div(det),
            self.cofactor(2, 3).div(det),
            self.cofactor(3, 3).div(det),
        ];
        let cand = Mat4x4 { data: [r0, r1, r2, r3] };
        proof {
            assert forall|i: int, j: int| 0 <= i < 4 && 0 <= j < 4 implies #[trigger] cand.data[i][j]
                == inv4(*self).data[i][j] by {
                assert(cand.data[i][j] == inv4_entry(*self, i, j));
            };
            lemma_mat4_ext(cand, inv4(*self));
        }
        let p1 = self.mul(cand);
        let p2 = cand.mul(*self);
        proof {
            assert forall|ri: int, ci: int|
                #![trigger p1.data[ri][ci]]
                #![trigger m_cand_entry(*self, ri, ci)]
                0 <= ri < 4 && 0 <= ci < 4 implies p1.data[ri][ci] == m_cand_entry(
                *self,
                ri,
                ci,
            ) by {
                assert(p1.data[ri][ci] == mm4_entry(*self, cand, ri, ci));
            };
            assert forall|ri: int, ci: int|
                #![trigger p2.data[ri][ci]]
                #![trigger cand_m_entry(*self, ri, ci)]
                0 <= ri < 4 && 0 <= ci < 4 implies p2.data[ri][ci] == cand_m_entry(
                *self,
                ri,
                ci,
            ) by {
                assert(p2.data[ri][ci] == mm4_entry(cand, *self, ri, ci));
            };
        }
        if p1.near_identity() && p2.near_identity() {
            Ok(cand)
        } else {
            Err("Matrix is not invertible")
        }
    }

    /// Whether every entry lies within the inversion tolerance of the
    /// identity.
    fn near_identity(&self) -> (r: bool)
        ensures
            r == forall|i: int, j: int|
                0 <= i < 4 && 0 <= j < 4 ==> near_id_entry(#[trigger] self.data[i][j], i, j, INV_TOL as int),
    {
        let mut i: usize = 0;
        while i < 4
            invariant
                i <= 4,
                forall|r0: int, c0: int|
                    0 <= r0 < i && 0 <= c0 < 4 ==> near_id_entry(
                        #[trigger] self.data[r0][c0],
                        r0,
                        c0,
                        INV_TOL as int,
                    ),
            decreases 4 - i,
        {
            let mut j: usize = 0;
            while j < 4
                invariant
                    i < 4,
                    j <= 4,
                    forall|r0: int, c0: int|
                        0 <= r0 < i && 0 <= c0 < 4 ==> near_id_entry(
                            #[trigger] self.data[r0][c0],
                            r0,
                            c0,
                            INV_TOL as int,
                        ),
                    forall|c0: int|
                        0 <= c0 < j ==> near_id_entry(
                            #[trigger] self.data[i as int][c0],
                            i as int,
                            c0,
                            INV_TOL as int,
                        ),
                decreases 4 - j,
            {
                let target = if i == j {
                    Fx { m: SCALE }
                } else {
                    Fx { m: 0 }
                };
                proof {
                    assert(target.m == id_m(i as int, j as int));
                }
                if !entry_near(self.data[i][j], target, INV_TOL) {
                    proof {
                        assert(!near_id_entry(
                            self.data[i as int][j as int],
                            i as int,
                            j as int,
                            INV_TOL as int,
                        ));
                    }
                    return false;
                }
                proof {
                    assert(near_id_entry(
                        self.data[i as int][j as int],
                        i as int,
                        j as int,
                        INV_TOL as int,
                    ));
                }
                j += 1;
            }
            i += 1;
        }
        true
    }
}

/// Whether two matrices agree within the comparison tolerance of 10^-5,
/// entry by entry: the check that approximate-equality assertions rest on.
pub fn assert_mat4x4_near(a: Mat4x4, b: Mat4x4) -> (r: bool)
    ensures
        r == mat4_near(a, b, NEAR_TOL as int),
{
    let mut i: usize = 0;
    while i < 4
        invariant
            i <= 4,
            forall|r0: int, c0: int|
                0 <= r0 < i && 0 <= c0 < 4 ==> -(NEAR_TOL as int) <= (#[trigger] a.data[r0][c0]).m
                    - b.data[r0][c0].m <= NEAR_TOL as int,
        decreases 4 - i,
    {
        let mut j: usize = 0;
        while j < 4
            invariant
                i < 4,
                j <= 4,
                forall|r0: int, c0: int|
                    0 <= r0 < i && 0 <= c0 < 4 ==> -(NEAR_TOL as int) <= (
                    #[trigger] a.data[r0][c0]).m - b.data[r0][c0].m <= NEAR_TOL as int,
                forall|c0: int|
                    0 <= c0 < j ==> -(NEAR_TOL as int) <= (#[trigger] a.data[i as int][c0]).m
                        - b.data[i as int][c0].m <= NEAR_TOL as int,
            decreases 4 - j,
        {
            if !entry_near(a.data[i][j], b.data[i][j], NEAR_TOL) {
                return false;
            }
            j += 1;
        }
        i += 1;
    }
    true
}

/// The 4x4 identity matrix.
pub open spec fn mat4_id() -> Mat4x4 {
    let o = Fx { m: SCALE };
    let n = Fx { m: 0 };
    Mat4x4 {
        data: [[o, n, n, n], [n, o, n, n], [n, n, o, n], [n, n, n, o]],
    }
}

/// The transpose of a 4x4 matrix, as a value.
pub open spec fn tr4(m: Mat4x4) -> Mat4x4 {
    Mat4x4 {
        data: [
            [m.data[0][0], m.data[1][0], m.data[2][0], m.data[3][0]],
            [m.data[0][1], m.data[1][1], m.data[2][1], m.data[3][1]],
            [m.data[0][2], m.data[1][2], m.data[2][2], m.data[3][2]],
            [m.data[0][3], m.data[1][3], m.data[2][3], m.data[3][3]],
        ],
    }
}

/// The adjugate-over-determinant inverse candidate, as a value.
pub open spec fn inv4(m: Mat4x4) -> Mat4x4 {
    Mat4x4 {
        data: [
            [inv4_entry(m, 0, 0), inv4_entry(m, 0, 1), inv4_entry(m, 0, 2), inv4_entry(m, 0, 3)],
            [inv4_entry(m, 1, 0), inv4_entry(m, 1, 1), inv4_entry(m, 1, 2), inv4_entry(m, 1, 3)],
            [inv4_entry(m, 2, 0), inv4_entry(m, 2, 1), inv4_entry(m, 2, 2), inv4_entry(m, 2, 3)],
            [inv4_entry(m, 3, 0), inv4_entry(m, 3, 1), inv4_entry(m, 3, 2), inv4_entry(m, 3, 3)],
        ],
    }
}

/// The product of two matrices, as a value.
pub open spec fn mat4_mul_s(a: Mat4x4, b: Mat4x4) -> Mat4x4 {
    Mat4x4 {
        data: [
            [mm4_entry(a, b, 0, 0), mm4_entry(a, b, 0, 1), mm4_entry(a, b, 0, 2), mm4_entry(a, b, 0, 3)],
            [mm4_entry(a, b, 1, 0), mm4_entry(a, b, 1, 1), mm4_entry(a, b, 1, 2), mm4_entry(a, b, 1, 3)],
            [mm4_entry(a, b, 2, 0), mm4_entry(a, b, 2, 1), mm4_entry(a, b, 2, 2), mm4_entry(a, b, 2, 3)],
            [mm4_entry(a, b, 3, 0), mm4_entry(a, b, 3, 1), mm4_entry(a, b, 3, 2), mm4_entry(a, b, 3, 3)],
        ],
    }
}

/// Matrices equal entry by entry are equal.
pub proof fn lemma_mat4_ext(a: Mat4x4, b: Mat4x4)
    requires
        forall|i: int, j: int| 0 <= i < 4 && 0 <= j < 4 ==> #[trigger] a.data[i][j] == b.data[i][j],
    ensures
        a == b,
{
    assert forall|i: int| 0 <= i < 4 implies #[trigger] a.data[i] == b.data[i] by {
        assert(a.data[i]@ =~= b.data[i]@);
    };
    assert(a.data@ =~= b.data@);
    assert(a.data == b.data);
}

/// For every matrix accepted as invertible, the product with its inverse
/// lies within the inversion tolerance of the identity, entry by entry, in
/// both orders: the inverse really undoes the matrix, up to 10^-5.
pub proof fn lemma_inverse_near_identity(m: Mat4x4)
    requires
        inv4_ok(m),
    ensures
        forall|r: int, c: int|
            0 <= r < 4 && 0 <= c < 4 ==> near_id_entry(
                #[trigger] mm4_entry(m, inv4(m), r, c),
                r,
                c,
                INV_TOL as int,
            ),
        forall|r: int, c: int|
            0 <= r < 4 && 0 <= c < 4 ==> near_id_entry(
                #[trigger] mm4_entry(inv4(m), m, r, c),
                r,
                c,
                INV_TOL as int,
            ),
{
    assert forall|r: int, c: int| 0 <= r < 4 && 0 <= c < 4 implies near_id_entry(
        #[trigger] mm4_entry(m, inv4(m), r, c),
        r,
        c,
        INV_TOL as int,
    ) by {
        assert(mm4_entry(m, inv4(m), r, c) == m_cand_entry(m, r, c));
    };
    assert forall|r: int, c: int| 0 <= r < 4 && 0 <= c < 4 implies near_id_entry(
        #[trigger] mm4_entry(inv4(m), m, r, c),
        r,
        c,
        INV_TOL as int,
    ) by {
        assert(mm4_entry(inv4(m), m, r, c) == cand_m_entry(m, r, c));
    };
}

/// The `r`-th row of a matrix, read as a tuple.
pub open spec fn row_tuple(m: Mat4x4, r: int) -> Tuple {
    Tuple { x: m.data[r][0], y: m.data[r][1], z: m.data[r][2], w: m.data[r][3] }
}

/// A matrix applied to a tuple, row dots, top to bottom.
pub open spec fn m4_tuple(m: Mat4x4, t: Tuple) -> Tuple {
    Tuple {
        x: t_dot(row_tuple(m, 0), t),
        y: t_dot(row_tuple(m, 1), t),
        z: t_dot(row_tuple(m, 2), t),
        w: t_dot(row_tuple(m, 3), t),
    }
}

impl PartialEq for Mat4x4 {
    /// Equality within the fixed tolerance, entry by entry.
    fn eq(&self, other: &Mat4x4) -> (r: bool) {
        let mut i: usize = 0;
        while i < 4
            invariant
                i <= 4,
                forall|r0: int, c0: int|
                    0 <= r0 < i && 0 <= c0 < 4 ==> -(EQ_TOL as int) <= (
                    #[trigger] self.data[r0][c0]).m - other.data[r0][c0].m <= EQ_TOL as int,
            decreases 4 - i,
        {
            let mut j: usize = 0;
            while j < 4
                invariant
                    i < 4,
                    j <= 4,
                    forall|r0: int, c0: int|
                        0 <= r0 < i && 0 <= c0 < 4 ==> -(EQ_TOL as int) <= (
                        #[trigger] self.data[r0][c0]).m - other.data[r0][c0].m <= EQ_TOL as int,
                    forall|c0: int|
                        0 <= c0 < j ==> -(EQ_TOL as int) <= (#[trigger] self.data[i as int][c0]).m
                            - other.data[i as int][c0].m <= EQ_TOL as int,
                decreases 4 - j,
            {
                if !entry_near(self.data[i][j], other.data[i][j], EQ_TOL) {
                    return false;
                }
                j += 1;
            }
            i += 1;
        }
        true
    }
}

impl vstd::std_specs::cmp::PartialEqSpecImpl for Mat4x4 {
    open spec fn obeys_eq_spec() -> bool {
        true
    }

    open spec fn eq_spec(&self, other: &Mat4x4) -> bool {
        mat4_near(*self, *other, EQ_TOL as int)
    }
}

impl Eq for Mat4x4 {}

} // verus!
