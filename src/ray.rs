//! Half-lines: an origin and a direction.
use crate::vector::{vadd, vscale, Vec3};
use vstd::prelude::*;

verus! {

#[derive(Clone, Copy, Debug, PartialEq, Eq, Structural)]
pub struct Ray {
    pub origin: Vec3,
    /// Unit length where the ray feeds the shading engine.
    pub direction: Vec3,
}

pub open spec fn point_at_spec(ray: Ray, t: int) -> Vec3 {
    vadd(ray.origin, vscale(ray.direction, t))
}

impl Ray {
    /// `origin + t * direction`.
    pub fn point_at(&self, t: i64) -> (p: Vec3)
        ensures
            p == point_at_spec(*self, t as int),
    {
        self.origin.add(self.direction.scale(t))
    }
}

} // verus!
