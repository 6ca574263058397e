//! Affine transform constructors: translation, scaling, rotation and shear.
//!
//! The rotation constructors take the sine and cosine of the angle as
//! scalars; computing them from an angle is transcendental and is left to
//! the caller, which keeps the library's arithmetic exact.

use crate::fixed::{lemma_exact_ops, Fx, SCALE};
use crate::matrix::{
    cand_m_entry, det4, inv4, inv4_entry, inv4_ok, m4_tuple, m_cand_entry, near_id_entry, Mat4x4,
    INV_TOL,
};
use crate::tuple::Tuple;
use vstd::prelude::*;

verus! {

/// The translation matrix moving points by `(x, y, z)`.
pub open spec fn translate_s(x: Fx, y: Fx, z: Fx) -> Mat4x4 {
    let o = Fx { m: SCALE };
    let n = Fx { m: 0 };
    Mat4x4 {
        data: [[o, n, n, x], [n, o, n, y], [n, n, o, z], [n, n, n, o]],
    }
}

/// A translation by `(x, y, z)`; vectors, whose `w` is zero, are unmoved.
pub fn translate(x: Fx, y: Fx, z: Fx) -> (r: Mat4x4)
    ensures
        r == translate_s(x, y, z),
{
    let o = Fx { m: SCALE };
    let n = Fx { m: 0 };
    Mat4x4 {
        data: [[o, n, n, x], [n, o, n, y], [n, n, o, z], [n, n, n, o]],
    }
}

/// The scaling matrix with factors `(x, y, z)` on the diagonal.
pub open spec fn scale_s(x: Fx, y: Fx, z: Fx) -> Mat4x4 {
    let o = Fx { m: SCALE };
    let n = Fx { m: 0 };
    Mat4x4 {
        data: [[x, n, n, n], [n, y, n, n], [n, n, z, n], [n, n, n, o]],
    }
}

/// A scaling by factors `(x, y, z)`.
pub fn scale(x: Fx, y: Fx, z: Fx) -> (r: Mat4x4)
    ensures
        r == scale_s(x, y, z),
{
    let o = Fx { m: SCALE };
    let n = Fx { m: 0 };
    Mat4x4 {
        data: [[x, n, n, n], [n, y, n, n], [n, n, z, n], [n, n, n, o]],
    }
}

/// The rotation matrix about the x axis with the given sine and cosine.
pub open spec fn rotate_x_s(sin: Fx, cos: Fx) -> Mat4x4 {
    let o = Fx { m: SCALE };
    let n = Fx { m: 0 };
    let ns = Fx { m: crate::fixed::neg_m(sin.m as int) as i64 };
    Mat4x4 {
        data: [[o, n, n, n], [n, cos, ns, n], [n, sin, cos, n], [n, n, n, o]],
    }
}

/// A rotation about the x axis; `sin` and `cos` are the sine and cosine of
/// the angle, supplied by the caller.
pub fn rotate_x(sin: Fx, cos: Fx) -> (r: Mat4x4)
    ensures
        r == rotate_x_s(sin, cos),
{
    let o = Fx { m: SCALE };
    let n = Fx { m: 0 };
    let ns = sin.neg();
    Mat4x4 {
        data: [[o, n, n, n], [n, cos, ns, n], [n, sin, cos, n], [n, n, n, o]],
    }
}

/// The rotation matrix about the y axis with the given sine and cosine.
pub open spec fn rotate_y_s(sin: Fx, cos: Fx) -> Mat4x4 {
    let o = Fx { m: SCALE };
    let n = Fx { m: 0 };
    let ns = Fx { m: crate::fixed::neg_m(sin.m as int) as i64 };
    Mat4x4 {
        data: [[cos, n, sin, n], [n, o, n, n], [ns, n, cos, n], [n, n, n, o]],
    }
}

/// A rotation about the y axis; `sin` and `cos` are the sine and cosine of
/// the angle, supplied by the caller.
pub fn rotate_y(sin: Fx, cos: Fx) -> (r: Mat4x4)
    ensures
        r == rotate_y_s(sin, cos),
{
    let o = Fx { m: SCALE };
    let n = Fx { m: 0 };
    let ns = sin.neg();
    Mat4x4 {
        data: [[cos, n, sin, n], [n, o, n, n], [ns, n, cos, n], [n, n, n, o]],
    }
}

/// The rotation matrix about the z axis with the given sine and cosine.
pub open spec fn rotate_z_s(sin: Fx, cos: Fx) -> Mat4x4 {
    let o = Fx { m: SCALE };
    let n = Fx { m: 0 };
    let ns = Fx { m: crate::fixed::neg_m(sin.m as int) as i64 };
    Mat4x4 {
        data: [[cos, ns, n, n], [sin, cos, n, n], [n, n, o, n], [n, n, n, o]],
    }
}

/// A rotation about the z axis; `sin` and `cos` are the sine and cosine of
/// the angle, supplied by the caller.
pub fn rotate_z(sin: Fx, cos: Fx) -> (r: Mat4x4)
    ensures
        r == rotate_z_s(sin, cos),
{
    let o = Fx { m: SCALE };
    let n = Fx { m: 0 };
    let ns = sin.neg();
    Mat4x4 {
        data: [[cos, ns, n, n], [sin, cos, n, n], [n, n, o, n], [n, n, n, o]],
    }
}

/// The shearing matrix moving each coordinate in proportion to the others.
pub open spec fn skew_s(xy: Fx, xz: Fx, yx: Fx, yz: Fx, zx: Fx, zy: Fx) -> Mat4x4 {
    let o = Fx { m: SCALE };
    let n = Fx { m: 0 };
    Mat4x4 {
        data: [[o, xy, xz, n], [yx, o, yz, n], [zx, zy, o, n], [n, n, n, o]],
    }
}

/// A shear: each coordinate moves in proportion to the other two.
pub fn skew(xy: Fx, xz: Fx, yx: Fx, yz: Fx, zx: Fx, zy: Fx) -> (r: Mat4x4)
    ensures
        r == skew_s(xy, xz, yx, yz, zx, zy),
{
    let o = Fx { m: SCALE };
    let n = Fx { m: 0 };
    Mat4x4 {
        data: [[o, xy, xz, n], [yx, o, yz, n], [zx, zy, o, n], [n, n, n, o]],
    }
}

/// A coordinate small enough that a translation and its undoing stay
/// exact: no sum along the way saturates.
pub open spec fn moderate(a: Fx) -> bool {
    -0x1000_0000_0000_0000 <= a.m <= 0x1000_0000_0000_0000
}


/// A translation by moderate offsets is always accepted as invertible: its
/// determinant is one and the adjugate candidate multiplies back to the
/// identity exactly, in either order.
#[verifier::rlimit(100)]
pub proof fn lemma_translate_invertible(x: Fx, y: Fx, z: Fx)
    requires
        moderate(x),
        moderate(y),
        moderate(z),
    ensures
        inv4_ok(translate_s(x, y, z)),
{
    lemma_exact_ops();
    reveal(crate::matrix::minor4);
    reveal(crate::matrix::minor3);
    let t = translate_s(x, y, z);
    assert(det4(t) == Fx { m: SCALE });
    assert forall|ri: int, ci: int| 0 <= ri < 4 && 0 <= ci < 4 implies near_id_entry(
        #[trigger] m_cand_entry(t, ri, ci),
        ri,
        ci,
        INV_TOL as int,
    ) by {
        if ri == 0 {
            if ci == 0 {
                assert(near_id_entry(m_cand_entry(t, 0, 0), 0, 0, INV_TOL as int));
            } else if ci == 1 {
                assert(near_id_entry(m_cand_entry(t, 0, 1), 0, 1, INV_TOL as int));
            } else if ci == 2 {
                assert(near_id_entry(m_cand_entry(t, 0, 2), 0, 2, INV_TOL as int));
            } else if ci == 3 {
                assert(near_id_entry(m_cand_entry(t, 0, 3), 0, 3, INV_TOL as int));
            }
        } else if ri == 1 {
            if ci == 0 {
                assert(near_id_entry(m_cand_entry(t, 1, 0), 1, 0, INV_TOL as int));
            } else if ci == 1 {
                assert(near_id_entry(m_cand_entry(t, 1, 1), 1, 1, INV_TOL as int));
            } else if ci == 2 {
                assert(near_id_entry(m_cand_entry(t, 1, 2), 1, 2, INV_TOL as int));
            } else if ci == 3 {
                assert(near_id_entry(m_cand_entry(t, 1, 3), 1, 3, INV_TOL as int));
            }
        } else if ri == 2 {
            if ci == 0 {
                assert(near_id_entry(m_cand_entry(t, 2, 0), 2, 0, INV_TOL as int));
            } else if ci == 1 {
                assert(near_id_entry(m_cand_entry(t, 2, 1), 2, 1, INV_TOL as int));
            } else if ci == 2 {
                assert(near_id_entry(m_cand_entry(t, 2, 2), 2, 2, INV_TOL as int));
            } else if ci == 3 {
                assert(near_id_entry(m_cand_entry(t, 2, 3), 2, 3, INV_TOL as int));
            }
        } else if ri == 3 {
            if ci == 0 {
                assert(near_id_entry(m_cand_entry(t, 3, 0), 3, 0, INV_TOL as int));
            } else if ci == 1 {
                assert(near_id_entry(m_cand_entry(t, 3, 1), 3, 1, INV_TOL as int));
            } else if ci == 2 {
                assert(near_id_entry(m_cand_entry(t, 3, 2), 3, 2, INV_TOL as int));
            } else if ci == 3 {
                assert(near_id_entry(m_cand_entry(t, 3, 3), 3, 3, INV_TOL as int));
            }
        }
    };
    assert forall|ri: int, ci: int| 0 <= ri < 4 && 0 <= ci < 4 implies near_id_entry(
        #[trigger] cand_m_entry(t, ri, ci),
        ri,
        ci,
        INV_TOL as int,
    ) by {
        if ri == 0 {
            if ci == 0 {
                assert(near_id_entry(cand_m_entry(t, 0, 0), 0, 0, INV_TOL as int));
            } else if ci == 1 {
                assert(near_id_entry(cand_m_entry(t, 0, 1), 0, 1, INV_TOL as int));
            } else if ci == 2 {
                assert(near_id_entry(cand_m_entry(t, 0, 2), 0, 2, INV_TOL as int));
            } else if ci == 3 {
                assert(near_id_entry(cand_m_entry(t, 0, 3), 0, 3, INV_TOL as int));
            }
        } else if ri == 1 {
            if ci == 0 {
                assert(near_id_entry(cand_m_entry(t, 1, 0), 1, 0, INV_TOL as int));
            } else if ci == 1 {
                assert(near_id_entry(cand_m_entry(t, 1, 1), 1, 1, INV_TOL as int));
            } else if ci == 2 {
                assert(near_id_entry(cand_m_entry(t, 1, 2), 1, 2, INV_TOL as int));
            } else if ci == 3 {
                assert(near_id_entry(cand_m_entry(t, 1, 3), 1, 3, INV_TOL as int));
            }
        } else if ri == 2 {
            if ci == 0 {
                assert(near_id_entry(cand_m_entry(t, 2, 0), 2, 0, INV_TOL as int));
            } else if ci == 1 {
                assert(near_id_entry(cand_m_entry(t, 2, 1), 2, 1, INV_TOL as int));
            } else if ci == 2 {
                assert(near_id_entry(cand_m_entry(t, 2, 2), 2, 2, INV_TOL as int));
            } else if ci == 3 {
                assert(near_id_entry(cand_m_entry(t, 2, 3), 2, 3, INV_TOL as int));
            }
        } else if ri == 3 {
            if ci == 0 {
                assert(near_id_entry(cand_m_entry(t, 3, 0), 3, 0, INV_TOL as int));
            } else if ci == 1 {
                assert(near_id_entry(cand_m_entry(t, 3, 1), 3, 1, INV_TOL as int));
            } else if ci == 2 {
                assert(near_id_entry(cand_m_entry(t, 3, 2), 3, 2, INV_TOL as int));
            } else if ci == 3 {
                assert(near_id_entry(cand_m_entry(t, 3, 3), 3, 3, INV_TOL as int));
            }
        }
    };
}

/// Undoing a translation recovers the point exactly: for every point `p`
/// and every moderate offset, the inverse of `translate(x, y, z)` applied
/// to the translated point gives `p` back.
pub proof fn lemma_translate_round_trip(x: Fx, y: Fx, z: Fx, p: Tuple)
    requires
        p.w.m == SCALE,
        moderate(x),
        moderate(y),
        moderate(z),
        moderate(p.x),
        moderate(p.y),
        moderate(p.z),
    ensures
        m4_tuple(inv4(translate_s(x, y, z)), m4_tuple(translate_s(x, y, z), p)) == p,
{
    lemma_exact_ops();
    reveal(crate::matrix::minor4);
    reveal(crate::matrix::minor3);
    let t = translate_s(x, y, z);
    assert(det4(t) == Fx { m: SCALE });
    assert(inv4_entry(t, 0, 0) == Fx { m: SCALE });
    assert(inv4_entry(t, 0, 1) == Fx { m: 0 });
    assert(inv4_entry(t, 0, 2) == Fx { m: 0 });
    assert(inv4_entry(t, 0, 3).m == crate::fixed::neg_m(x.m as int));
    assert(inv4_entry(t, 1, 0) == Fx { m: 0 });
    assert(inv4_entry(t, 1, 1) == Fx { m: SCALE });
    assert(inv4_entry(t, 1, 2) == Fx { m: 0 });
    assert(inv4_entry(t, 1, 3).m == crate::fixed::neg_m(y.m as int));
    assert(inv4_entry(t, 2, 0) == Fx { m: 0 });
    assert(inv4_entry(t, 2, 1) == Fx { m: 0 });
    assert(inv4_entry(t, 2, 2) == Fx { m: SCALE });
    assert(inv4_entry(t, 2, 3).m == crate::fixed::neg_m(z.m as int));
    assert(inv4_entry(t, 3, 0) == Fx { m: 0 });
    assert(inv4_entry(t, 3, 1) == Fx { m: 0 });
    assert(inv4_entry(t, 3, 2) == Fx { m: 0 });
    assert(inv4_entry(t, 3, 3) == Fx { m: SCALE });
    let q = m4_tuple(t, p);
    assert(q.x.m == p.x.m + x.m);
    assert(q.y.m == p.y.m + y.m);
    assert(q.z.m == p.z.m + z.m);
    assert(q.w.m == SCALE);
    let back = m4_tuple(inv4(t), q);
    assert(back.x == p.x);
    assert(back.y == p.y);
    assert(back.z == p.z);
    assert(back.w == p.w);
}

} // verus!
