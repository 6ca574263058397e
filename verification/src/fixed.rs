//! The scalar type of the ray tracer: a saturating fixed-point number with
//! thirteen decimal digits of fraction, held as an `i64` mantissa.
//!
//! Every operation is total and deterministic, and its contract gives the
//! result exactly as an integer formula over the mantissas: products and
//! quotients are rounded to the nearest representable value (half away from
//! zero), results outside the representable range saturate symmetrically,
//! and the square root is the rounded-down exact root. Epsilon policies of
//! the scene pipeline are stated over these formulas.

use vstd::prelude::*;

verus! {

/// Mantissa steps per unit.
pub const SCALE: i64 = 10_000_000_000_000;

/// Largest mantissa a scalar may hold; the range is symmetric about zero so
/// that negation is total.
pub const MAX_M: i64 = i64::MAX;

/// Saturation: clamps a mathematical mantissa into the symmetric range.
pub open spec fn sat_m(v: int) -> int {
    if v > MAX_M as int {
        MAX_M as int
    } else if v < -(MAX_M as int) {
        -(MAX_M as int)
    } else {
        v
    }
}

/// Rounded division of a non-negative dividend by a positive divisor:
/// half-steps round up.
pub open spec fn half_up(p: int, q: int) -> int
    recommends
        p >= 0,
        q >= 1,
{
    (p + q / 2) / q
}

/// Rounded division, half away from zero.
pub open spec fn rdiv_m(p: int, q: int) -> int
    recommends
        q >= 1,
{
    if p >= 0 {
        half_up(p, q)
    } else {
        -half_up(-p, q)
    }
}

/// Mantissa of a sum.
pub open spec fn add_m(a: int, b: int) -> int {
    sat_m(a + b)
}

/// Mantissa of a difference.
pub open spec fn sub_m(a: int, b: int) -> int {
    sat_m(a - b)
}

/// Mantissa of a negation.
pub open spec fn neg_m(a: int) -> int {
    sat_m(-a)
}

/// Mantissa of an absolute value.
pub open spec fn abs_m(a: int) -> int {
    sat_m(if a < 0 { -a } else { a })
}

/// Mantissa of a product: the exact product rescaled with rounding.
pub open spec fn mul_m(a: int, b: int) -> int {
    sat_m(rdiv_m(a * b, SCALE as int))
}

/// Mantissa of a quotient. Division by zero saturates to the signed extreme,
/// the fixed-point analogue of the infinities the pipeline never relies on.
pub open spec fn div_m(a: int, b: int) -> int {
    if b == 0 {
        if a == 0 {
            0
        } else if a > 0 {
            MAX_M as int
        } else {
            -(MAX_M as int)
        }
    } else if b > 0 {
        sat_m(rdiv_m(a * (SCALE as int), b))
    } else {
        sat_m(rdiv_m(-(a * (SCALE as int)), -b))
    }
}

/// Exact rounded-down square root of a non-negative integer.
pub open spec fn spec_isqrt(n: int) -> int
    decreases n,
{
    if n < 4 {
        if n < 1 {
            0
        } else {
            1
        }
    } else {
        let r = 2 * spec_isqrt(n / 4);
        if (r + 1) * (r + 1) <= n {
            r + 1
        } else {
            r
        }
    }
}

/// Mantissa of a square root; non-positive inputs give zero.
pub open spec fn sqrt_m(a: int) -> int {
    if a <= 0 {
        0
    } else {
        spec_isqrt(a * (SCALE as int))
    }
}

/// Mantissa of an integer power, by repeated rounded multiplication.
pub open spec fn pow_m(b: int, e: nat) -> int
    decreases e,
{
    if e == 0 {
        SCALE as int
    } else {
        mul_m(pow_m(b, (e - 1) as nat), b)
    }
}

/// The whole units below a scalar: the floor of its value.
pub open spec fn floor_m(a: int) -> int {
    a / (SCALE as int)
}

/// `spec_isqrt` indeed brackets its argument between consecutive squares.
pub proof fn lemma_isqrt_bounds(n: int)
    ensures
        0 <= spec_isqrt(n),
        spec_isqrt(n) * spec_isqrt(n) <= n || n < 0,
        n < (spec_isqrt(n) + 1) * (spec_isqrt(n) + 1) || n < 0,
    decreases n,
{
    if n < 4 {
        if n < 1 {
            assert(spec_isqrt(n) == 0);
            assert((spec_isqrt(n) + 1) * (spec_isqrt(n) + 1) == 1) by (nonlinear_arith)
                requires
                    spec_isqrt(n) == 0,
            ;
        } else {
            assert(spec_isqrt(n) == 1);
            assert(spec_isqrt(n) * spec_isqrt(n) == 1) by (nonlinear_arith)
                requires
                    spec_isqrt(n) == 1,
            ;
            assert((spec_isqrt(n) + 1) * (spec_isqrt(n) + 1) == 4) by (nonlinear_arith)
                requires
                    spec_isqrt(n) == 1,
            ;
        }
    } else {
        lemma_isqrt_bounds(n / 4);
        let q = n / 4;
        let r = spec_isqrt(q);
        assert(4 * q <= n && n < 4 * q + 4) by {
            vstd::arithmetic::div_mod::lemma_fundamental_div_mod(n as int, 4);
            vstd::arithmetic::div_mod::lemma_mod_bound(n as int, 4);
        };
        assert((2 * r) * (2 * r) <= 4 * q) by (nonlinear_arith)
            requires
                r * r <= q,
        ;
        assert(4 * q + 4 <= (2 * r + 2) * (2 * r + 2)) by (nonlinear_arith)
            requires
                q < (r + 1) * (r + 1),
        ;
        let s = spec_isqrt(n);
        if (2 * r + 1) * (2 * r + 1) <= n {
            assert(s == 2 * r + 1);
            assert(s * s <= n) by (nonlinear_arith)
                requires
                    s == 2 * r + 1,
                    (2 * r + 1) * (2 * r + 1) <= n,
            ;
            assert(n < (s + 1) * (s + 1)) by (nonlinear_arith)
                requires
                    s == 2 * r + 1,
                    n < (2 * r + 2) * (2 * r + 2),
            ;
        } else {
            assert(s == 2 * r);
            assert(s * s <= n) by (nonlinear_arith)
                requires
                    s == 2 * r,
                    (2 * r) * (2 * r) <= n,
            ;
            assert(n < (s + 1) * (s + 1)) by (nonlinear_arith)
                requires
                    s == 2 * r,
                    n < (2 * r + 1) * (2 * r + 1),
            ;
        }
    }
}

/// Two mantissas bracketed by the same consecutive squares are the same root.
pub proof fn lemma_isqrt_unique(n: int, r: int)
    requires
        0 <= n,
        0 <= r,
        r * r <= n,
        n < (r + 1) * (r + 1),
    ensures
        r == spec_isqrt(n),
{
    lemma_isqrt_bounds(n);
    let s = spec_isqrt(n);
    if r < s {
        assert((r + 1) * (r + 1) <= s * s) by (nonlinear_arith)
            requires
                0 <= r,
                r + 1 <= s,
        ;
    }
    if s < r {
        assert((s + 1) * (s + 1) <= r * r) by (nonlinear_arith)
            requires
                0 <= s,
                s + 1 <= r,
        ;
    }
}

pub(crate) proof fn lemma_mul_bound_i64(a: int, b: int)
    requires
        -(0x8000_0000_0000_0000) <= a <= 0x8000_0000_0000_0000,
        -(0x8000_0000_0000_0000) <= b <= 0x8000_0000_0000_0000,
    ensures
        -(0x4000_0000_0000_0000_0000_0000_0000_0000) <= a * b
            <= 0x4000_0000_0000_0000_0000_0000_0000_0000,
{
    assert(-(0x4000_0000_0000_0000_0000_0000_0000_0000) <= a * b
        <= 0x4000_0000_0000_0000_0000_0000_0000_0000) by (nonlinear_arith)
        requires
            -(0x8000_0000_0000_0000) <= a <= 0x8000_0000_0000_0000,
            -(0x8000_0000_0000_0000) <= b <= 0x8000_0000_0000_0000,
    ;
}

/// Rounded-down square root of a 128-bit natural, by bisection.
fn isqrt_u128(n: u128) -> (r: u128)
    requires
        n < 0x1000_0000_0000_0000_0000_0000_0000,
    ensures
        r * r <= n,
        n < (r + 1) * (r + 1),
{
    let mut lo: u128 = 0;
    let mut hi: u128 = 0x40_0000_0000_0000;
    proof {
        assert(n < hi * hi) by (nonlinear_arith)
            requires
                hi == 0x40_0000_0000_0000,
                n < 0x1000_0000_0000_0000_0000_0000_0000,
        ;
    }
    while lo + 1 < hi
        invariant
            lo < hi,
            hi <= 0x40_0000_0000_0000,
            lo * lo <= n,
            n < hi * hi,
        decreases hi - lo,
    {
        let mid = lo + (hi - lo) / 2;
        proof {
            assert(mid * mid <= 0x1000_0000_0000_0000_0000_0000_0000) by (nonlinear_arith)
                requires
                    mid <= 0x40_0000_0000_0000,
            ;
        }
        if mid * mid <= n {
            lo = mid;
        } else {
            hi = mid;
        }
    }
    proof {
        assert(hi == lo + 1);
    }
    lo
}

/// Saturates an exact 128-bit mantissa into the representable range.
pub(crate) fn sat128(v: i128) -> (r: i64)
    ensures
        r as int == sat_m(v as int),
{
    if v > MAX_M as i128 {
        MAX_M
    } else if v < -(MAX_M as i128) {
        -MAX_M
    } else {
        v as i64
    }
}

/// Rounded division on 128-bit intermediates, half away from zero.
fn rdiv128(p: i128, q: i128) -> (r: i128)
    requires
        1 <= q <= 0x1_0000_0000_0000_0000,
        -(0x4000_0000_0000_0000_0000_0000_0000_0000) <= p
            <= 0x4000_0000_0000_0000_0000_0000_0000_0000,
    ensures
        r as int == rdiv_m(p as int, q as int),
{
    let qu = q as u128;
    if p >= 0 {
        let pu = p as u128;
        let ru = (pu + qu / 2) / qu;
        assert(ru <= pu + qu / 2) by {
            vstd::arithmetic::div_mod::lemma_div_nonincreasing((pu + qu / 2) as int, qu as int);
        };
        ru as i128
    } else {
        let pu = (-p) as u128;
        let ru = (pu + qu / 2) / qu;
        assert(ru <= pu + qu / 2) by {
            vstd::arithmetic::div_mod::lemma_div_nonincreasing((pu + qu / 2) as int, qu as int);
        };
        -(ru as i128)
    }
}

/// The fixed-point scalar. The mantissa counts steps of `1 / SCALE`.
#[derive(Clone, Copy, Debug, PartialEq, Eq, Structural)]
pub struct Fx {
    pub m: i64,
}

impl Fx {
    /// Wraps a raw mantissa.
    pub fn from_mantissa(m: i64) -> (r: Fx)
        ensures
            r.m == m,
    {
        Fx { m }
    }

    /// The scalar holding a whole number, saturated if out of range.
    pub fn from_int(v: i64) -> (r: Fx)
        ensures
            r.m as int == sat_m(v * (SCALE as int)),
    {
        proof {
            lemma_mul_bound_i64(v as int, SCALE as int);
        }
        Fx { m: sat128((v as i128) * (SCALE as i128)) }
    }

    /// Zero.
    pub fn zero() -> (r: Fx)
        ensures
            r.m == 0,
    {
        Fx { m: 0 }
    }

    /// One.
    pub fn one() -> (r: Fx)
        ensures
            r.m == SCALE,
    {
        Fx { m: SCALE }
    }

    /// Sum, saturating.
    pub fn add(self, rhs: Fx) -> (r: Fx)
        ensures
            r.m as int == add_m(self.m as int, rhs.m as int),
    {
        Fx { m: sat128(self.m as i128 + rhs.m as i128) }
    }

    /// Difference, saturating.
    pub fn sub(self, rhs: Fx) -> (r: Fx)
        ensures
            r.m as int == sub_m(self.m as int, rhs.m as int),
    {
        Fx { m: sat128(self.m as i128 - rhs.m as i128) }
    }

    /// Negation; total, since the mantissa range is treated symmetrically.
    pub fn neg(self) -> (r: Fx)
        ensures
            r.m as int == neg_m(self.m as int),
    {
        if self.m == i64::MIN {
            Fx { m: MAX_M }
        } else {
            Fx { m: -self.m }
        }
    }

    /// Absolute value, saturating.
    pub fn abs(self) -> (r: Fx)
        ensures
            r.m as int == abs_m(self.m as int),
    {
        if self.m < 0 {
            self.neg()
        } else {
            self
        }
    }

    /// Product, rounded to the nearest representable value.
    pub fn mul(self, rhs: Fx) -> (r: Fx)
        ensures
            r.m as int == mul_m(self.m as int, rhs.m as int),
    {
        proof {
            lemma_mul_bound_i64(self.m as int, rhs.m as int);
        }
        let p: i128 = (self.m as i128) * (rhs.m as i128);
        Fx { m: sat128(rdiv128(p, SCALE as i128)) }
    }

    /// Quotient, rounded to the nearest representable value; a zero divisor
    /// saturates to the signed extreme.
    pub fn div(self, rhs: Fx) -> (r: Fx)
        ensures
            r.m as int == div_m(self.m as int, rhs.m as int),
    {
        proof {
            lemma_mul_bound_i64(self.m as int, SCALE as int);
        }
        if rhs.m == 0 {
            if self.m == 0 {
                Fx { m: 0 }
            } else if self.m > 0 {
                Fx { m: MAX_M }
            } else {
                Fx { m: -MAX_M }
            }
        } else {
            let p: i128 = (self.m as i128) * (SCALE as i128);
            if rhs.m > 0 {
                Fx { m: sat128(rdiv128(p, rhs.m as i128)) }
            } else {
                Fx { m: sat128(rdiv128(-p, -(rhs.m as i128))) }
            }
        }
    }

    /// Rounded-down square root; non-positive inputs give zero.
    pub fn sqrt(self) -> (r: Fx)
        ensures
            r.m as int == sqrt_m(self.m as int),
    {
        if self.m <= 0 {
            Fx { m: 0 }
        } else {
            let a: u128 = self.m as u128;
            let sc: u128 = SCALE as u128;
            proof {
                assert(a * sc < 0x800_0000_0000_0000_0000_0000_0000) by (nonlinear_arith)
                    requires
                        a < 0x8000_0000_0000_0000,
                        sc == 10_000_000_000_000,
                ;
            }
            let n: u128 = a * sc;
            let s = isqrt_u128(n);
            proof {
                if s >= 0x80_0000_0000_0000 {
                    assert(s * s >= 0x4000_0000_0000_0000_0000_0000_0000) by (nonlinear_arith)
                        requires
                            s >= 0x80_0000_0000_0000,
                    ;
                }
                lemma_isqrt_unique(n as int, s as int);
            }
            Fx { m: s as i64 }
        }
    }

    /// Integer power, by repeated rounded multiplication.
    pub fn powi(self, e: u32) -> (r: Fx)
        ensures
            r.m as int == pow_m(self.m as int, e as nat),
    {
        let mut acc = Fx { m: SCALE };
        let mut i: u32 = 0;
        while i < e
            invariant
                i <= e,
                acc.m as int == pow_m(self.m as int, i as nat),
            decreases e - i,
        {
            acc = acc.mul(self);
            i = i + 1;
        }
        acc
    }

    /// The floor of the value, as a count of whole units.
    pub fn floor_units(self) -> (r: i64)
        ensures
            r as int == floor_m(self.m as int),
    {
        if self.m >= 0 {
            let q = (self.m as u64) / (SCALE as u64);
            q as i64
        } else {
            let a: u128 = (-(self.m as i128)) as u128;
            let s: u128 = SCALE as u128;
            let q = (a + s - 1) / s;
            proof {
                lemma_floor_of_negative(self.m as int, a as int, q as int);
            }
            let qi = q as i64;
            -qi
        }
    }

    /// Whether the floor of the value is an even number of units.
    pub fn floor_is_even(self) -> (r: bool)
        ensures
            r == (floor_m(self.m as int) % 2 == 0),
    {
        let f = self.floor_units();
        if f >= 0 {
            (f as u64) % 2 == 0
        } else {
            let a = (-(f as i128)) as u128;
            proof {
                lemma_parity_of_negative(f as int, a as int);
            }
            a % 2 == 0
        }
    }
}

proof fn lemma_floor_of_negative(m: int, a: int, q: int)
    requires
        m < 0,
        a == -m,
        a <= 0x8000_0000_0000_0000,
        q == (a + (SCALE as int) - 1) / (SCALE as int),
    ensures
        -q == m / (SCALE as int),
        0 <= q <= 0x8_0000_0000_0000,
{
    let s = SCALE as int;
    vstd::arithmetic::div_mod::lemma_fundamental_div_mod(a + s - 1, s);
    vstd::arithmetic::div_mod::lemma_mod_bound(a + s - 1, s);
    let r = (a + s - 1) % s;
    assert(a + s - 1 == s * q + r);
    assert(m == (-q) * s + (s * q + m)) by (nonlinear_arith);
    assert(0 <= s * q + m < s) by (nonlinear_arith)
        requires
            a + s - 1 == s * q + r,
            0 <= r < s,
            a == -m,
            s == SCALE as int,
    ;
    vstd::arithmetic::div_mod::lemma_fundamental_div_mod_converse(m, s, -q, s * q + m);
    assert(q <= 0x8_0000_0000_0000) by (nonlinear_arith)
        requires
            s * q <= a + s - 1,
            a <= 0x8000_0000_0000_0000,
            s == SCALE as int,
    ;
    assert(0 <= q) by {
        vstd::arithmetic::div_mod::lemma_div_pos_is_pos(a + s - 1, s);
    };
}

pub(crate) proof fn lemma_parity_of_negative(f: int, a: int)
    requires
        f < 0,
        a == -f,
    ensures
        (a % 2 == 0) == (f % 2 == 0),
{
    vstd::arithmetic::div_mod::lemma_fundamental_div_mod(a, 2);
    vstd::arithmetic::div_mod::lemma_mod_bound(a, 2);
    let q = a / 2;
    let r = a % 2;
    assert(f == (-q - r) * 2 + r) by (nonlinear_arith)
        requires
            a == q * 2 + r,
            a == -f,
    ;
    vstd::arithmetic::div_mod::lemma_fundamental_div_mod_converse(f, 2, -q - r, r);
}

/// The floor of a bounded mantissa, in units, is itself well bounded.
pub proof fn lemma_floor_units_range(m: int)
    requires
        -(0x8000_0000_0000_0000) <= m <= 0x8000_0000_0000_0000,
    ensures
        -(0x8_0000_0000_0000) <= m / (SCALE as int) <= 0x8_0000_0000_0000,
{
    let s = SCALE as int;
    vstd::arithmetic::div_mod::lemma_fundamental_div_mod(m, s);
    vstd::arithmetic::div_mod::lemma_mod_bound(m, s);
    let q = m / s;
    let r = m % s;
    assert(-(0x8_0000_0000_0000) <= q <= 0x8_0000_0000_0000) by (nonlinear_arith)
        requires
            m == s * q + r,
            0 <= r < s,
            s == SCALE as int,
            -(0x8000_0000_0000_0000) <= m <= 0x8000_0000_0000_0000,
    ;
}

/// Multiplying by one is exact: no rounding, no saturation.
pub proof fn lemma_mul_one(a: int)
    requires
        -(MAX_M as int) <= a <= MAX_M as int,
    ensures
        mul_m(a, SCALE as int) == a,
        mul_m(SCALE as int, a) == a,
{
    let s = SCALE as int;
    if a >= 0 {
        vstd::arithmetic::div_mod::lemma_fundamental_div_mod_converse(a * s + s / 2, s, a, s / 2);
        assert(half_up(a * s, s) == a);
    } else {
        assert(-(a * s) == (-a) * s) by (nonlinear_arith);
        vstd::arithmetic::div_mod::lemma_fundamental_div_mod_converse(
            (-a) * s + s / 2,
            s,
            -a,
            s / 2,
        );
        assert(half_up(-(a * s), s) == -a);
    }
    assert(a * s == s * a) by (nonlinear_arith);
}

/// Multiplying by zero gives zero.
pub proof fn lemma_mul_zero(a: int)
    ensures
        mul_m(a, 0) == 0,
        mul_m(0, a) == 0,
{
    let s = SCALE as int;
    assert(a * 0 == 0) by (nonlinear_arith);
    assert(0 * a == 0) by (nonlinear_arith);
    vstd::arithmetic::div_mod::lemma_div_pos_is_pos(s, 2);
    vstd::arithmetic::div_mod::lemma_div_is_strictly_smaller(s, 2);
    vstd::arithmetic::div_mod::lemma_basic_div(s / 2, s);
    assert(half_up(0, s) == 0);
}

/// Dividing by one is exact.
pub proof fn lemma_div_one(a: int)
    requires
        -(MAX_M as int) <= a <= MAX_M as int,
    ensures
        div_m(a, SCALE as int) == a,
{
    let s = SCALE as int;
    if a >= 0 {
        vstd::arithmetic::div_mod::lemma_fundamental_div_mod_converse(a * s + s / 2, s, a, s / 2);
        assert(half_up(a * s, s) == a);
    } else {
        assert(-(a * s) == (-a) * s) by (nonlinear_arith);
        vstd::arithmetic::div_mod::lemma_fundamental_div_mod_converse(
            (-a) * s + s / 2,
            s,
            -a,
            s / 2,
        );
        assert(half_up(-(a * s), s) == -a);
    }
}

/// Dividing zero by anything gives zero.
pub proof fn lemma_div_zero(b: int)
    ensures
        div_m(0, b) == 0,
{
    let s = SCALE as int;
    if b > 0 {
        assert(0 * s == 0) by (nonlinear_arith);
        if b == 1 {
            assert(half_up(0, b) == 0);
        } else {
            vstd::arithmetic::div_mod::lemma_div_pos_is_pos(b, 2);
            vstd::arithmetic::div_mod::lemma_div_is_strictly_smaller(b, 2);
            vstd::arithmetic::div_mod::lemma_basic_div(b / 2, b);
            assert(half_up(0, b) == 0);
        }
    } else if b < 0 {
        assert(-(0 * s) == 0) by (nonlinear_arith);
        if b == -1 {
            assert(half_up(0, -b) == 0);
        } else {
            vstd::arithmetic::div_mod::lemma_div_pos_is_pos(-b, 2);
            vstd::arithmetic::div_mod::lemma_div_is_strictly_smaller(-b, 2);
            vstd::arithmetic::div_mod::lemma_basic_div((-b) / 2, -b);
            assert(half_up(0, -b) == 0);
        }
    }
}

/// The exactness facts in quantified form: multiplying or dividing by one
/// or zero rounds nothing away.
pub proof fn lemma_exact_ops()
    ensures
        forall|a: int|
            -(MAX_M as int) <= a <= MAX_M as int ==> #[trigger] mul_m(a, SCALE as int) == a,
        forall|a: int|
            -(MAX_M as int) <= a <= MAX_M as int ==> #[trigger] mul_m(SCALE as int, a) == a,
        forall|a: int| #[trigger] mul_m(a, 0) == 0,
        forall|a: int| #[trigger] mul_m(0, a) == 0,
        forall|a: int|
            -(MAX_M as int) <= a <= MAX_M as int ==> #[trigger] div_m(a, SCALE as int) == a,
        forall|b: int| #[trigger] div_m(0, b) == 0,
{
    assert forall|a: int|
        -(MAX_M as int) <= a <= MAX_M as int implies #[trigger] mul_m(a, SCALE as int) == a by {
        lemma_mul_one(a);
    };
    assert forall|a: int|
        -(MAX_M as int) <= a <= MAX_M as int implies #[trigger] mul_m(SCALE as int, a) == a by {
        lemma_mul_one(a);
    };
    assert forall|a: int| #[trigger] mul_m(a, 0) == 0 by {
        lemma_mul_zero(a);
    };
    assert forall|a: int| #[trigger] mul_m(0, a) == 0 by {
        lemma_mul_zero(a);
    };
    assert forall|a: int|
        -(MAX_M as int) <= a <= MAX_M as int implies #[trigger] div_m(a, SCALE as int) == a by {
        lemma_div_one(a);
    };
    assert forall|b: int| #[trigger] div_m(0, b) == 0 by {
        lemma_div_zero(b);
    };
}

/// Whether a count is even.
pub fn i64_is_even(v: i64) -> (r: bool)
    ensures
        r == (v as int % 2 == 0),
{
    if v >= 0 {
        (v as u64) % 2 == 0
    } else {
        let a = (-(v as i128)) as u128;
        proof {
            lemma_parity_of_negative(v as int, a as int);
        }
        a % 2 == 0
    }
}

} // verus!
