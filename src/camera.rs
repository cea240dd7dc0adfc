//! The camera: maps image-plane coordinates to world-space rays.
use crate::fixed::{self, fadd, fmul, fsub};
use crate::ray::Ray;
use crate::vector::{mk, vadd, vcross, vneg, vnormalize, vscale, vsub, Vec3};
use vstd::prelude::*;

verus! {

/// A camera with its orthonormal basis `u` (right), `v` (up), `w` (backward), and the
/// image rectangle one unit in front of `origin`: its top-left `corner` and the vectors
/// `horizontal` and `vertical` that span it rightward and downward.
#[derive(Clone, Copy, Debug, PartialEq, Eq, Structural)]
pub struct Camera {
    pub origin: Vec3,
    pub corner: Vec3,
    pub horizontal: Vec3,
    pub vertical: Vec3,
    pub u: Vec3,
    pub v: Vec3,
    pub w: Vec3,
}

/// The camera at `origin` looking toward `look_at`, whose image half-height is
/// `half_height` (the tangent of half the vertical field of view), and whose world-up
/// vector is turned by the roll angle with the given sine and cosine.
pub open spec fn camera_spec(
    origin: Vec3,
    look_at: Vec3,
    half_height: int,
    aspect_ratio: int,
    roll_sin: int,
    roll_cos: int,
) -> Camera {
    let up = mk(fsub(0, roll_sin), roll_cos, 0);
    let w = vnormalize(vsub(origin, look_at));
    let u = vnormalize(vcross(up, w));
    let v = vnormalize(vcross(w, u));
    let half_width = fmul(half_height, aspect_ratio);
    Camera {
        origin,
        corner: vsub(vadd(vsub(origin, vscale(u, half_width)), vscale(v, half_height)), w),
        horizontal: vscale(u, fadd(half_width, half_width)),
        vertical: vneg(vscale(v, fadd(half_height, half_height))),
        u,
        v,
        w,
    }
}

/// The ray from the camera through `corner + s * horizontal + t * vertical`.
pub open spec fn camera_ray(c: Camera, s: int, t: int) -> Ray {
    Ray {
        origin: c.origin,
        direction: vnormalize(
            vsub(vadd(vadd(c.corner, vscale(c.horizontal, s)), vscale(c.vertical, t)), c.origin),
        ),
    }
}

impl Camera {
    /// The angles come as the trigonometric values the basis needs: `half_height` is
    /// `tan(fov / 2)`, and `roll_sin`, `roll_cos` are the sine and cosine of the roll.
    /// A `look_at` equal to `origin`, or a field of view of 180 degrees or more, gives a
    /// degenerate camera.
    pub fn new(
        origin: Vec3,
        look_at: Vec3,
        half_height: i64,
        aspect_ratio: i64,
        roll_sin: i64,
        roll_cos: i64,
    ) -> (c: Camera)
        ensures
            c == camera_spec(
                origin,
                look_at,
                half_height as int,
                aspect_ratio as int,
                roll_sin as int,
                roll_cos as int,
            ),
    {
        let up = Vec3::new(fixed::sub(0, roll_sin), roll_cos, 0);
        proof {
            fixed::lemma_clamp_bounds(0 - roll_sin);
        }
        let w = origin.sub(look_at).normalize();
        let u = up.cross(w).normalize();
        let v = w.cross(u).normalize();
        let half_width = fixed::mul(half_height, aspect_ratio);
        let corner = origin.sub(u.scale(half_width)).add(v.scale(half_height)).sub(w);
        let horizontal = u.scale(fixed::add(half_width, half_width));
        let vertical = v.scale(fixed::add(half_height, half_height)).neg();
        Camera { origin, corner, horizontal, vertical, u, v, w }
    }

    /// The ray through image-plane point `(s, t)`, fixed-point in `[0, 1]`; `(0, 0)` is the
    /// top-left corner.
    pub fn get_ray(&self, s: i64, t: i64) -> (r: Ray)
        ensures
            r == camera_ray(*self, s as int, t as int),
    {
        let target = self.corner.add(self.horizontal.scale(s)).add(self.vertical.scale(t));
        Ray { origin: self.origin, direction: target.sub(self.origin).normalize() }
    }
}

} // verus!
