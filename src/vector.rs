//! Three-component fixed-point vectors.
use crate::fixed::{self, clamp, is_root, lemma_isqrt_is, SCALE, fadd, fdiv, fmul, fsqrt, fsub, lemma_clamp_bounds};
use vstd::prelude::*;

verus! {

#[derive(Clone, Copy, Debug, PartialEq, Eq, Structural)]
pub struct Vec3 {
    pub x: i64,
    pub y: i64,
    pub z: i64,
}

/// The vector with the given components, each already in range.
pub open spec fn mk(x: int, y: int, z: int) -> Vec3 {
    Vec3 { x: x as i64, y: y as i64, z: z as i64 }
}

pub open spec fn vadd(a: Vec3, b: Vec3) -> Vec3 {
    mk(fadd(a.x as int, b.x as int), fadd(a.y as int, b.y as int), fadd(a.z as int, b.z as int))
}

pub open spec fn vsub(a: Vec3, b: Vec3) -> Vec3 {
    mk(fsub(a.x as int, b.x as int), fsub(a.y as int, b.y as int), fsub(a.z as int, b.z as int))
}

pub open spec fn vscale(a: Vec3, k: int) -> Vec3 {
    mk(fmul(a.x as int, k), fmul(a.y as int, k), fmul(a.z as int, k))
}

pub open spec fn vneg(a: Vec3) -> Vec3 {
    mk(fsub(0, a.x as int), fsub(0, a.y as int), fsub(0, a.z as int))
}

pub open spec fn vdot(a: Vec3, b: Vec3) -> int {
    fadd(fadd(fmul(a.x as int, b.x as int), fmul(a.y as int, b.y as int)), fmul(a.z as int, b.z as int))
}

pub open spec fn vcross(a: Vec3, b: Vec3) -> Vec3 {
    mk(
        fsub(fmul(a.y as int, b.z as int), fmul(a.z as int, b.y as int)),
        fsub(fmul(a.z as int, b.x as int), fmul(a.x as int, b.z as int)),
        fsub(fmul(a.x as int, b.y as int), fmul(a.y as int, b.x as int)),
    )
}

pub open spec fn vlen(a: Vec3) -> int {
    fsqrt(vdot(a, a))
}

/// Each component divided by the length; the zero vector for a vector of length zero.
pub open spec fn vnormalize(a: Vec3) -> Vec3 {
    let l = vlen(a);
    if l == 0 {
        mk(0, 0, 0)
    } else {
        mk(fdiv(a.x as int, l), fdiv(a.y as int, l), fdiv(a.z as int, l))
    }
}

/// Mirror image of `d` about the normal `n`: `d - 2 (d . n) n`.
pub open spec fn vreflect(d: Vec3, n: Vec3) -> Vec3 {
    vsub(d, vscale(n, fadd(vdot(d, n), vdot(d, n))))
}

/// Dot product in exact arithmetic.
pub open spec fn exact_dot(a: (int, int, int), b: (int, int, int)) -> int {
    a.0 * b.0 + a.1 * b.1 + a.2 * b.2
}

/// The reflection `(N.N) D - 2 (D.N) N` in exact arithmetic: for a unit normal it is
/// `D - 2 (D.N) N`, and for any other normal that vector scaled by `N.N`.
pub open spec fn exact_reflect(d: (int, int, int), n: (int, int, int)) -> (int, int, int) {
    let k = exact_dot(n, n);
    let m = 2 * exact_dot(d, n);
    (k * d.0 - m * n.0, k * d.1 - m * n.1, k * d.2 - m * n.2)
}

/// In exact arithmetic, reflection negates the component along the normal and keeps the
/// length: `D'.N = -(D.N)` and `|D'| = |D|`, both scaled by `N.N` (which is 1 for a unit
/// normal).
pub proof fn lemma_reflection_exact(d: (int, int, int), n: (int, int, int))
    ensures
        exact_dot(exact_reflect(d, n), n) == -(exact_dot(n, n) * exact_dot(d, n)),
        exact_dot(exact_reflect(d, n), exact_reflect(d, n)) == exact_dot(n, n) * exact_dot(n, n)
            * exact_dot(d, d),
{
    let k = exact_dot(n, n);
    let e = exact_dot(d, n);
    let m = 2 * e;
    let r = exact_reflect(d, n);
    lemma_scaled_difference(k, d.0, m, n.0, n.0);
    lemma_scaled_difference(k, d.1, m, n.1, n.1);
    lemma_scaled_difference(k, d.2, m, n.2, n.2);
    lemma_factor3(k, d.0 * n.0, d.1 * n.1, d.2 * n.2);
    lemma_factor3(m, n.0 * n.0, n.1 * n.1, n.2 * n.2);
    assert(k * e - m * k == -(k * e)) by (nonlinear_arith)
        requires
            m == 2 * e,
    ;
    lemma_square_difference(k, d.0, m, n.0);
    lemma_square_difference(k, d.1, m, n.1);
    lemma_square_difference(k, d.2, m, n.2);
    lemma_factor3(k * k, d.0 * d.0, d.1 * d.1, d.2 * d.2);
    lemma_factor3(2 * k * m, d.0 * n.0, d.1 * n.1, d.2 * n.2);
    lemma_factor3(m * m, n.0 * n.0, n.1 * n.1, n.2 * n.2);
    assert(2 * k * m * e == m * m * k) by (nonlinear_arith)
        requires
            m == 2 * e,
    ;
}

/// The fixed-point reflection about a coordinate axis is exact: it negates the component
/// along the normal and keeps the length, for components of magnitude at most `2^40`.
pub proof fn lemma_reflect_axis(d: Vec3, n: Vec3)
    requires
        n == mk(SCALE as int, 0, 0) || n == mk(0, SCALE as int, 0) || n == mk(0, 0, SCALE as int),
        -0x100_0000_0000 <= d.x <= 0x100_0000_0000,
        -0x100_0000_0000 <= d.y <= 0x100_0000_0000,
        -0x100_0000_0000 <= d.z <= 0x100_0000_0000,
    ensures
        vdot(vreflect(d, n), n) == -vdot(d, n),
        vlen(vreflect(d, n)) == vlen(d),
{
    let s = SCALE as int;
    lemma_unit_factor(d.x as int);
    lemma_unit_factor(d.y as int);
    lemma_unit_factor(d.z as int);
    lemma_unit_factor(2 * d.x);
    lemma_unit_factor(2 * d.y);
    lemma_unit_factor(2 * d.z);
    lemma_unit_factor(-d.x);
    lemma_unit_factor(-d.y);
    lemma_unit_factor(-d.z);
    lemma_square_sign(d.x as int);
    lemma_square_sign(d.y as int);
    lemma_square_sign(d.z as int);
    let r = vreflect(d, n);
    if n == mk(s, 0, 0) {
        assert(vdot(d, n) == d.x);
        assert(r == mk(-d.x, d.y as int, d.z as int));
    } else if n == mk(0, s, 0) {
        assert(vdot(d, n) == d.y);
        assert(r == mk(d.x as int, -d.y, d.z as int));
    } else {
        assert(vdot(d, n) == d.z);
        assert(r == mk(d.x as int, d.y as int, -d.z));
    }
}

/// A unit vector along a coordinate axis, either way, has length exactly 1.
pub proof fn lemma_axis_length(n: Vec3)
    requires
        (n.x == SCALE || n.x == -SCALE) && n.y == 0 && n.z == 0 || n.x == 0 && (n.y == SCALE
            || n.y == -SCALE) && n.z == 0 || n.x == 0 && n.y == 0 && (n.z == SCALE || n.z
            == -SCALE),
    ensures
        vlen(n) == SCALE,
{
    let s = SCALE as int;
    assert(fmul(s, s) == s) by (nonlinear_arith)
        requires
            s == SCALE,
    ;
    assert(fmul(-s, -s) == s) by (nonlinear_arith)
        requires
            s == SCALE,
    ;
    assert(vdot(n, n) == s);
    assert(is_root(s * s, s)) by (nonlinear_arith)
        requires
            s == SCALE,
    ;
    lemma_isqrt_is(s * s, s);
}

proof fn lemma_unit_factor(v: int)
    requires
        -0x200_0000_0000 <= v <= 0x200_0000_0000,
    ensures
        fmul(v, SCALE as int) == v,
        fmul(SCALE as int, v) == v,
        fmul(v, 0) == 0,
        fmul(0, v) == 0,
{
    let s = SCALE as int;
    assert((v * s) / s == v) by (nonlinear_arith)
        requires
            s == SCALE,
    ;
    assert((s * v) / s == v) by (nonlinear_arith)
        requires
            s == SCALE,
    ;
}

proof fn lemma_square_sign(v: int)
    ensures
        fmul(-v, -v) == fmul(v, v),
{
    assert((-v) * (-v) == v * v) by (nonlinear_arith);
}

proof fn lemma_scaled_difference(k: int, x: int, m: int, y: int, z: int)
    ensures
        (k * x - m * y) * z == k * (x * z) - m * (y * z),
{
    assert((k * x - m * y) * z == k * (x * z) - m * (y * z)) by (nonlinear_arith);
}

proof fn lemma_square_difference(k: int, x: int, m: int, y: int)
    ensures
        (k * x - m * y) * (k * x - m * y) == k * k * (x * x) - 2 * k * m * (x * y) + m * m * (y
            * y),
{
    let p = k * x;
    let q = m * y;
    assert((p - q) * (p - q) == p * p - 2 * (p * q) + q * q) by (nonlinear_arith);
    assert(p * p == k * k * (x * x)) by (nonlinear_arith)
        requires
            p == k * x,
    ;
    assert(p * q == k * m * (x * y)) by (nonlinear_arith)
        requires
            p == k * x,
            q == m * y,
    ;
    assert(q * q == m * m * (y * y)) by (nonlinear_arith)
        requires
            q == m * y,
    ;
    assert(2 * (p * q) == 2 * k * m * (x * y)) by (nonlinear_arith)
        requires
            p * q == k * m * (x * y),
    ;
}

proof fn lemma_factor3(c: int, a: int, b: int, d: int)
    ensures
        c * a + c * b + c * d == c * (a + b + d),
{
    assert(c * a + c * b + c * d == c * (a + b + d)) by (nonlinear_arith);
}

/// The unit-normal case: when `N.N = 1`, `D' = D - 2 (D.N) N` has `D'.N = -(D.N)` and
/// `D'.D' = D.D`.
pub proof fn lemma_reflection_unit(d: (int, int, int), n: (int, int, int))
    requires
        exact_dot(n, n) == 1,
    ensures
        exact_reflect(d, n) == (
            d.0 - 2 * exact_dot(d, n) * n.0,
            d.1 - 2 * exact_dot(d, n) * n.1,
            d.2 - 2 * exact_dot(d, n) * n.2,
        ),
        exact_dot(exact_reflect(d, n), n) == -exact_dot(d, n),
        exact_dot(exact_reflect(d, n), exact_reflect(d, n)) == exact_dot(d, d),
{
    lemma_reflection_exact(d, n);
    let k = exact_dot(n, n);
    let dd = exact_dot(d, d);
    assert(k * k * dd == dd) by (nonlinear_arith)
        requires
            k == 1,
    ;
}

proof fn lemma_mk3(x: int, y: int, z: int)
    ensures
        mk(clamp(x), clamp(y), clamp(z)).x == clamp(x),
        mk(clamp(x), clamp(y), clamp(z)).y == clamp(y),
        mk(clamp(x), clamp(y), clamp(z)).z == clamp(z),
{
    lemma_clamp_bounds(x);
    lemma_clamp_bounds(y);
    lemma_clamp_bounds(z);
}

impl Vec3 {
    pub fn new(x: i64, y: i64, z: i64) -> (r: Vec3)
        ensures
            r == (Vec3 { x, y, z }),
    {
        Vec3 { x, y, z }
    }

    pub fn zero() -> (r: Vec3)
        ensures
            r == mk(0, 0, 0),
    {
        Vec3 { x: 0, y: 0, z: 0 }
    }

    pub fn add(self, o: Vec3) -> (r: Vec3)
        ensures
            r == vadd(self, o),
    {
        proof {
            lemma_mk3(self.x + o.x, self.y + o.y, self.z + o.z);
        }
        Vec3 { x: fixed::add(self.x, o.x), y: fixed::add(self.y, o.y), z: fixed::add(self.z, o.z) }
    }

    pub fn sub(self, o: Vec3) -> (r: Vec3)
        ensures
            r == vsub(self, o),
    {
        proof {
            lemma_mk3(self.x - o.x, self.y - o.y, self.z - o.z);
        }
        Vec3 { x: fixed::sub(self.x, o.x), y: fixed::sub(self.y, o.y), z: fixed::sub(self.z, o.z) }
    }

    pub fn neg(self) -> (r: Vec3)
        ensures
            r == vneg(self),
    {
        proof {
            lemma_mk3(0 - self.x, 0 - self.y, 0 - self.z);
        }
        Vec3 { x: fixed::sub(0, self.x), y: fixed::sub(0, self.y), z: fixed::sub(0, self.z) }
    }

    pub fn scale(self, k: i64) -> (r: Vec3)
        ensures
            r == vscale(self, k as int),
    {
        proof {
            lemma_mk3(
                (self.x * k) / (fixed::SCALE as int),
                (self.y * k) / (fixed::SCALE as int),
                (self.z * k) / (fixed::SCALE as int),
            );
        }
        Vec3 { x: fixed::mul(self.x, k), y: fixed::mul(self.y, k), z: fixed::mul(self.z, k) }
    }

    pub fn dot(self, o: Vec3) -> (r: i64)
        ensures
            r == vdot(self, o),
    {
        fixed::add(fixed::add(fixed::mul(self.x, o.x), fixed::mul(self.y, o.y)), fixed::mul(self.z, o.z))
    }

    pub fn cross(self, o: Vec3) -> (r: Vec3)
        ensures
            r == vcross(self, o),
    {
        let x = fixed::sub(fixed::mul(self.y, o.z), fixed::mul(self.z, o.y));
        let y = fixed::sub(fixed::mul(self.z, o.x), fixed::mul(self.x, o.z));
        let z = fixed::sub(fixed::mul(self.x, o.y), fixed::mul(self.y, o.x));
        proof {
            lemma_clamp_bounds(x as int);
            lemma_clamp_bounds(y as int);
            lemma_clamp_bounds(z as int);
        }
        Vec3 { x, y, z }
    }

    pub fn length(self) -> (r: i64)
        ensures
            r == vlen(self),
    {
        fixed::sqrt(self.dot(self))
    }

    /// The unit vector along `self`, or the zero vector when `self` has length zero.
    pub fn normalize(self) -> (r: Vec3)
        ensures
            r == vnormalize(self),
    {
        let l = self.length();
        if l == 0 {
            Vec3 { x: 0, y: 0, z: 0 }
        } else {
            let x = fixed::div(self.x, l);
            let y = fixed::div(self.y, l);
            let z = fixed::div(self.z, l);
            proof {
                lemma_clamp_bounds(x as int);
                lemma_clamp_bounds(y as int);
                lemma_clamp_bounds(z as int);
            }
            Vec3 { x, y, z }
        }
    }

    /// Mirror image of `self` about the normal `n`.
    pub fn reflect(self, n: Vec3) -> (r: Vec3)
        ensures
            r == vreflect(self, n),
    {
        let d = self.dot(n);
        self.sub(n.scale(fixed::add(d, d)))
    }
}

} // verus!
