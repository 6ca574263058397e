//! Intersections of rays with shapes, and the hit-resolution policy: the
//! visible hit is the intersection with the smallest non-negative `t`.

use crate::shape::Shape;
use vstd::prelude::*;

verus! {

/// A candidate hit: the ray parameter and the shape met there.
#[derive(Clone, Copy, Debug)]
pub struct Intersection {
    pub t: crate::fixed::Fx,
    pub shape: Shape,
}

impl Intersection {
    /// An intersection at parameter `t` on the given shape.
    pub fn new(t: crate::fixed::Fx, shape: &Shape) -> (r: Intersection)
        ensures
            r == (Intersection { t, shape: *shape }),
    {
        Intersection { t, shape: *shape }
    }
}

impl PartialEq for Intersection {
    /// Same parameter, and the same shape within the matrix tolerance.
    fn eq(&self, other: &Intersection) -> (r: bool) {
        self.t.m == other.t.m && self.shape == other.shape
    }
}

impl vstd::std_specs::cmp::PartialEqSpecImpl for Intersection {
    open spec fn obeys_eq_spec() -> bool {
        true
    }

    open spec fn eq_spec(&self, other: &Intersection) -> bool {
        self.t.m == other.t.m && crate::shape::shape_eq(self.shape, other.shape)
    }
}

impl Eq for Intersection {}

/// No intersection of the list lies in front of the ray origin.
pub open spec fn no_hit(xs: Seq<Intersection>) -> bool {
    forall|i: int| 0 <= i < xs.len() ==> (#[trigger] xs[i]).t.m < 0
}

/// Position `k` holds the visible hit: its `t` is non-negative, no
/// non-negative `t` in the list is smaller, and every earlier entry is
/// behind the origin or strictly farther.
pub open spec fn is_hit(xs: Seq<Intersection>, k: int) -> bool {
    &&& 0 <= k < xs.len()
    &&& xs[k].t.m >= 0
    &&& forall|j: int|
        0 <= j < xs.len() && (#[trigger] xs[j]).t.m >= 0 ==> xs[k].t.m <= xs[j].t.m
    &&& forall|j: int| 0 <= j < k ==> (#[trigger] xs[j]).t.m < 0 || xs[j].t.m > xs[k].t.m
}

/// At most one position holds the visible hit.
pub proof fn lemma_hit_unique(xs: Seq<Intersection>, k1: int, k2: int)
    requires
        is_hit(xs, k1),
        is_hit(xs, k2),
    ensures
        k1 == k2,
{
}

/// The visible hit as a value: the intersection at the hit position, or
/// none when every `t` is negative.
pub open spec fn hit_opt(xs: Seq<Intersection>) -> Option<Intersection> {
    if exists|k: int| is_hit(xs, k) {
        Some(xs[choose|k: int| is_hit(xs, k)])
    } else {
        None
    }
}

/// The visible hit: the first intersection carrying the smallest
/// non-negative `t`, or none when every `t` is negative.
pub fn hit(intersections: Vec<Intersection>) -> (r: Option<Intersection>)
    ensures
        r == hit_opt(intersections@),
        r is None <==> no_hit(intersections@),
        r matches Some(h) ==> exists|k: int|
            #[trigger] is_hit(intersections@, k) && h == intersections@[k],
{
    let n = intersections.len();
    let mut best: Option<usize> = None;
    let mut i: usize = 0;
    while i < n
        invariant
            n == intersections@.len(),
            i <= n,
            best is None ==> forall|j: int|
                0 <= j < i ==> (#[trigger] intersections@[j]).t.m < 0,
            best matches Some(b) ==> {
                &&& 0 <= b < i
                &&& intersections@[b as int].t.m >= 0
                &&& forall|j: int|
                    0 <= j < i && (#[trigger] intersections@[j]).t.m >= 0
                        ==> intersections@[b as int].t.m <= intersections@[j].t.m
                &&& forall|j: int|
                    0 <= j < b ==> (#[trigger] intersections@[j]).t.m < 0
                        || intersections@[j].t.m > intersections@[b as int].t.m
            },
        decreases n - i,
    {
        let c = intersections[i];
        if c.t.m >= 0 {
            match best {
                None => {
                    best = Some(i);
                },
                Some(b) => {
                    if c.t.m < intersections[b].t.m {
                        best = Some(i);
                    }
                },
            }
        }
        i += 1;
    }
    match best {
        None => {
            proof {
                if exists|k: int| is_hit(intersections@, k) {
                    let k = choose|k: int| is_hit(intersections@, k);
                    assert(intersections@[k].t.m >= 0);
                }
            }
            None
        },
        Some(b) => {
            proof {
                assert(is_hit(intersections@, b as int));
                let k = choose|k: int| is_hit(intersections@, k);
                lemma_hit_unique(intersections@, b as int, k);
            }
            Some(intersections[b])
        },
    }
}

} // verus!
