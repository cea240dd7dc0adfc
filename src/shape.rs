//! Intersectable primitives: spheres and planes.
use crate::fixed::{self, fabs, fadd, fdiv, fmul, fsqrt, fsub, is_root, isqrt, lemma_isqrt_is, SCALE};
use crate::material::{valid_material, Material};
use crate::ray::{point_at_spec, Ray};
use crate::vector::{mk, vdot, vlen, vnormalize, vsub, Vec3};
use vstd::prelude::*;

verus! {

/// How far (0.001) shadow and reflection rays start off their surface along its normal,
/// so that a surface does not shadow or reflect itself.
pub const EPSILON: i64 = 1_000;

/// A ray whose direction meets a plane's normal at a dot product below this (0.001) in
/// magnitude counts as parallel to the plane, and misses it.
pub const PARALLEL_EPSILON: i64 = 1_000;

#[derive(Clone, Copy, Debug, PartialEq, Eq, Structural)]
pub struct Sphere {
    pub position: Vec3,
    pub radius: i64,
    pub material: Material,
}

#[derive(Clone, Copy, Debug, PartialEq, Eq, Structural)]
pub struct Plane {
    pub position: Vec3,
    /// Unit length, as the scene gives it.
    pub normal: Vec3,
    pub material: Material,
}

#[derive(Clone, Copy, Debug, PartialEq, Eq, Structural)]
pub enum Object {
    Sphere(Sphere),
    Plane(Plane),
}

/// Where a ray meets a surface: its distance along the ray, the surface normal there,
/// and the surface's material.
#[derive(Clone, Copy, Debug, PartialEq, Eq, Structural)]
pub struct Hit {
    pub distance: i64,
    pub normal: Vec3,
    pub material: Material,
}

/// The nearer root of `|O + tD - C|^2 = r^2` that is strictly positive, from
/// `a t^2 + 2 b t + c = 0` with `a = D.D`, `b = D.(O - C)`, `c = |O - C|^2 - r^2`.
pub open spec fn sphere_distance(s: Sphere, ray: Ray) -> Option<i64> {
    let l = vsub(ray.origin, s.position);
    let a = vdot(ray.direction, ray.direction);
    let b = vdot(ray.direction, l);
    let c = fsub(vdot(l, l), fmul(s.radius as int, s.radius as int));
    let disc = fsub(fmul(b, b), fmul(a, c));
    if a <= 0 || disc < 0 {
        None
    } else {
        let root = fsqrt(disc);
        let near = fdiv(fsub(fsub(0, b), root), a);
        let far = fdiv(fadd(fsub(0, b), root), a);
        if near > 0 {
            Some(near as i64)
        } else if far > 0 {
            Some(far as i64)
        } else {
            None
        }
    }
}

/// `t = (P - O).N / D.N`, when the ray is not parallel to the plane and `t` is positive.
pub open spec fn plane_distance(p: Plane, ray: Ray) -> Option<i64> {
    let denom = vdot(ray.direction, p.normal);
    if fabs(denom) < PARALLEL_EPSILON {
        None
    } else {
        let t = fdiv(vdot(vsub(p.position, ray.origin), p.normal), denom);
        if t > 0 {
            Some(t as i64)
        } else {
            None
        }
    }
}

pub open spec fn valid_object(o: Object) -> bool {
    match o {
        Object::Sphere(s) => s.radius > 0 && valid_material(s.material),
        Object::Plane(p) => vlen(p.normal) == SCALE && valid_material(p.material),
    }
}

pub open spec fn object_material(o: Object) -> Material {
    match o {
        Object::Sphere(s) => s.material,
        Object::Plane(p) => p.material,
    }
}

pub open spec fn hit_of(o: Object, ray: Ray) -> Option<Hit> {
    match o {
        Object::Sphere(s) => match sphere_distance(s, ray) {
            Some(t) => Some(
                Hit {
                    distance: t,
                    normal: vnormalize(vsub(point_at_spec(ray, t as int), s.position)),
                    material: s.material,
                },
            ),
            None => None,
        },
        Object::Plane(p) => match plane_distance(p, ray) {
            Some(t) => Some(Hit { distance: t, normal: p.normal, material: p.material }),
            None => None,
        },
    }
}

/// A sphere of radius `r` at the origin, met by the ray from `z = 10` toward the origin,
/// is hit at its front face, `t = 10 - r`, not at its back face, `t = 10 + r`. The
/// distance is exact for radii on the grid of 0.001 (`r = 1000 j` raw units).
pub proof fn lemma_front_face(s: Sphere, ray: Ray, j: int)
    requires
        s.position == mk(0, 0, 0),
        s.radius == 1000 * j,
        0 < j,
        1000 * j < 10 * SCALE,
        ray == (Ray { origin: mk(0, 0, 10 * SCALE), direction: mk(0, 0, -SCALE) }),
    ensures
        sphere_distance(s, ray) == Some((10 * SCALE - s.radius) as i64),
{
    let r = s.radius as int;
    let l = vsub(ray.origin, s.position);
    assert(l == mk(0, 0, 10 * SCALE));
    assert(fmul(-SCALE, -SCALE) == SCALE) by (nonlinear_arith);
    assert(fmul(-SCALE, 10 * SCALE) == -10 * SCALE) by (nonlinear_arith);
    assert(fmul(10 * SCALE, 10 * SCALE) == 100 * SCALE) by (nonlinear_arith);
    assert(fmul(-10 * SCALE, -10 * SCALE) == 100 * SCALE) by (nonlinear_arith);
    assert(fmul(0, 0) == 0);
    assert(fmul(0, 10 * SCALE) == 0);
    let a = vdot(ray.direction, ray.direction);
    let b = vdot(ray.direction, l);
    assert(a == SCALE);
    assert(b == -10 * SCALE);
    assert(vdot(l, l) == 100 * SCALE);
    assert(r * r == j * j * SCALE) by (nonlinear_arith)
        requires
            r == 1000 * j,
    ;
    assert((r * r) / (SCALE as int) == j * j) by (nonlinear_arith)
        requires
            r * r == j * j * SCALE,
    ;
    assert(j * j < 100 * SCALE) by (nonlinear_arith)
        requires
            0 < j,
            1000 * j < 10 * SCALE,
    ;
    assert(fmul(r, r) == j * j);
    let c = fsub(vdot(l, l), fmul(r, r));
    assert(c == 100 * SCALE - j * j);
    assert(fmul(a, c) == c) by (nonlinear_arith)
        requires
            a == SCALE,
            0 <= c <= 100 * SCALE,
    ;
    let disc = fsub(fmul(b, b), fmul(a, c));
    assert(disc == j * j);
    assert(disc * SCALE == r * r);
    assert(is_root(r * r, r)) by (nonlinear_arith)
        requires
            r > 0,
    ;
    lemma_isqrt_is(r * r, r);
    assert(j * j > 0) by (nonlinear_arith)
        requires
            j > 0,
    ;
    assert(isqrt(disc * SCALE) == r);
    assert(fsqrt(disc) == r);
    let near = fdiv(fsub(fsub(0, b), r), a);
    assert(fsub(fsub(0, b), r) == 10 * SCALE - r);
    assert(near == 10 * SCALE - r) by (nonlinear_arith)
        requires
            near == fdiv(10 * SCALE - r, a),
            a == SCALE,
            0 < 10 * SCALE - r < 10 * SCALE,
    ;
}

/// For any radius `r` of at least 0.5 the same ray is hit at the front face up to the
/// rounding of one raw unit: `10 - r <= t <= 10 - r + 0.000001`, far from the back face.
pub proof fn lemma_front_face_rounded(s: Sphere, ray: Ray)
    requires
        s.position == mk(0, 0, 0),
        SCALE / 2 + 1 <= s.radius,
        s.radius < 10 * SCALE,
        ray == (Ray { origin: mk(0, 0, 10 * SCALE), direction: mk(0, 0, -SCALE) }),
    ensures
        sphere_distance(s, ray) matches Some(t) && 10 * SCALE - s.radius <= t <= 10 * SCALE
            - s.radius + 1,
{
    let r = s.radius as int;
    let sc = SCALE as int;
    let l = vsub(ray.origin, s.position);
    assert(l == mk(0, 0, 10 * SCALE));
    assert(fmul(-SCALE, -SCALE) == SCALE) by (nonlinear_arith);
    assert(fmul(-SCALE, 10 * SCALE) == -10 * SCALE) by (nonlinear_arith);
    assert(fmul(10 * SCALE, 10 * SCALE) == 100 * SCALE) by (nonlinear_arith);
    assert(fmul(-10 * SCALE, -10 * SCALE) == 100 * SCALE) by (nonlinear_arith);
    assert(fmul(0, 0) == 0);
    assert(fmul(0, 10 * SCALE) == 0);
    let a = vdot(ray.direction, ray.direction);
    let b = vdot(ray.direction, l);
    assert(a == SCALE);
    assert(b == -10 * SCALE);
    assert(vdot(l, l) == 100 * SCALE);
    let q = (r * r) / sc;
    assert(0 < q < 100 * SCALE && q * sc <= r * r && r * r < q * sc + sc) by (nonlinear_arith)
        requires
            q == (r * r) / sc,
            sc == SCALE,
            sc / 2 + 1 <= r < 10 * sc,
    ;
    assert(fmul(r, r) == q);
    let c = fsub(vdot(l, l), fmul(r, r));
    assert(c == 100 * SCALE - q);
    assert(fmul(a, c) == c) by (nonlinear_arith)
        requires
            a == SCALE,
            0 <= c <= 100 * SCALE,
    ;
    let disc = fsub(fmul(b, b), fmul(a, c));
    assert(disc == q);
    let n = q * sc;
    let k = 10 * sc;
    assert(n < (k + 1) * (k + 1)) by (nonlinear_arith)
        requires
            n == q * sc,
            q < 100 * sc,
            k == 10 * sc,
            sc > 0,
    ;
    fixed::lemma_root_exists(n, k);
    let root = isqrt(n);
    assert(root <= r) by (nonlinear_arith)
        requires
            0 <= root,
            root * root <= n,
            n <= r * r,
            r > 0,
    ;
    assert(r - 1 <= root) by (nonlinear_arith)
        requires
            0 <= root,
            n < (root + 1) * (root + 1),
            r * r < n + sc,
            2 * r - 1 >= sc,
    ;
    assert(fsqrt(disc) == root);
    let near = fdiv(fsub(fsub(0, b), root), a);
    assert(fsub(fsub(0, b), root) == 10 * SCALE - root);
    assert(near == 10 * SCALE - root) by (nonlinear_arith)
        requires
            near == fdiv(10 * SCALE - root, a),
            a == SCALE,
            0 < 10 * SCALE - root <= 10 * SCALE,
    ;
}

impl Sphere {
    /// Distance to the nearest intersection at a positive distance.
    pub fn distance(&self, ray: &Ray) -> (r: Option<i64>)
        ensures
            r == sphere_distance(*self, *ray),
            r matches Some(t) ==> t > 0,
    {
        let l = ray.origin.sub(self.position);
        let a = ray.direction.dot(ray.direction);
        let b = ray.direction.dot(l);
        let c = fixed::sub(l.dot(l), fixed::mul(self.radius, self.radius));
        let disc = fixed::sub(fixed::mul(b, b), fixed::mul(a, c));
        if a <= 0 || disc < 0 {
            return None;
        }
        let root = fixed::sqrt(disc);
        let near = fixed::div(fixed::sub(fixed::sub(0, b), root), a);
        let far = fixed::div(fixed::add(fixed::sub(0, b), root), a);
        if near > 0 {
            Some(near)
        } else if far > 0 {
            Some(far)
        } else {
            None
        }
    }
}

impl Plane {
    /// Distance to the intersection at a positive distance, if the ray is not parallel.
    pub fn distance(&self, ray: &Ray) -> (r: Option<i64>)
        ensures
            r == plane_distance(*self, *ray),
            r matches Some(t) ==> t > 0,
    {
        let denom = ray.direction.dot(self.normal);
        if fixed::abs(denom) < PARALLEL_EPSILON {
            return None;
        }
        let t = fixed::div(self.position.sub(ray.origin).dot(self.normal), denom);
        if t > 0 {
            Some(t)
        } else {
            None
        }
    }
}

impl Object {
    /// The nearest intersection of the ray with this primitive at a positive distance.
    pub fn intersect(&self, ray: &Ray) -> (r: Option<Hit>)
        ensures
            r == hit_of(*self, *ray),
            r matches Some(h) ==> h.distance > 0,
    {
        match self {
            Object::Sphere(s) => match s.distance(ray) {
                Some(t) => {
                    let normal = ray.point_at(t).sub(s.position).normalize();
                    Some(Hit { distance: t, normal, material: s.material })
                },
                None => None,
            },
            Object::Plane(p) => match p.distance(ray) {
                Some(t) => Some(Hit { distance: t, normal: p.normal, material: p.material }),
                None => None,
            },
        }
    }
}

} // verus!
