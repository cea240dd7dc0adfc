//! Helpers that add primitives and lights to a scene, with default coefficients.
use crate::color::{rgb, unit_of, Color};
use crate::light::{Light, LightType};
use crate::material::Material;
use crate::shape::{Object, Plane, Sphere};
use crate::vector::{mk, Vec3};
use vstd::prelude::*;

use super::Scene;

verus! {

/// Default diffuse coefficient, 0.6.
pub const DEFAULT_DIFFUSE: i64 = 600_000;

/// Default specular coefficient, 50.
pub const DEFAULT_SPECULAR: i64 = 50_000_000;

/// Default specular exponent, 100.
pub const DEFAULT_SPECULAR_EXPONENT: i64 = 100_000_000;

/// Default reflectiveness, 1.
pub const DEFAULT_REFLECTIVENESS: i64 = 1_000_000;

/// Default intensity of an ambient light, 0.25.
pub const DEFAULT_AMBIENT_INTENSITY: i64 = 250_000;

pub open spec fn or_default(v: Option<i64>, d: i64) -> i64 {
    match v {
        Some(x) => x,
        None => d,
    }
}

pub open spec fn byte_color(c: (u8, u8, u8)) -> Color {
    rgb(unit_of(c.0 as int), unit_of(c.1 as int), unit_of(c.2 as int))
}

/// The material that the helpers build, each missing coefficient taking its default.
pub open spec fn material_of(
    color: (u8, u8, u8),
    diffuse: Option<i64>,
    specular: Option<i64>,
    specular_exponent: Option<i64>,
    reflectiveness: Option<i64>,
) -> Material {
    Material {
        color: byte_color(color),
        diffuse: or_default(diffuse, DEFAULT_DIFFUSE),
        specular: or_default(specular, DEFAULT_SPECULAR),
        specular_exponent: or_default(specular_exponent, DEFAULT_SPECULAR_EXPONENT),
        reflectiveness: or_default(reflectiveness, DEFAULT_REFLECTIVENESS),
    }
}

fn pick(v: Option<i64>, d: i64) -> (r: i64)
    ensures
        r == or_default(v, d),
{
    match v {
        Some(x) => x,
        None => d,
    }
}

fn make_material(
    color: (u8, u8, u8),
    diffuse: Option<i64>,
    specular: Option<i64>,
    specular_exponent: Option<i64>,
    reflectiveness: Option<i64>,
) -> (m: Material)
    ensures
        m == material_of(color, diffuse, specular, specular_exponent, reflectiveness),
{
    Material {
        color: Color::from_u8(color.0, color.1, color.2),
        diffuse: pick(diffuse, DEFAULT_DIFFUSE),
        specular: pick(specular, DEFAULT_SPECULAR),
        specular_exponent: pick(specular_exponent, DEFAULT_SPECULAR_EXPONENT),
        reflectiveness: pick(reflectiveness, DEFAULT_REFLECTIVENESS),
    }
}

impl Scene {
    /// Adds a sphere with center `pos` and radius `radius`.
    pub fn create_sphere(
        &mut self,
        pos: (i64, i64, i64),
        radius: i64,
        color: (u8, u8, u8),
        diffuse: Option<i64>,
        specular: Option<i64>,
        specular_exponent: Option<i64>,
        reflectiveness: Option<i64>,
    )
        ensures
            final(self).objects@ == old(self).objects@.push(
                Object::Sphere(
                    Sphere {
                        position: Vec3 { x: pos.0, y: pos.1, z: pos.2 },
                        radius,
                        material: material_of(
                            color,
                            diffuse,
                            specular,
                            specular_exponent,
                            reflectiveness,
                        ),
                    },
                ),
            ),
            final(self).lights@ == old(self).lights@,
            final(self).options == old(self).options,
            final(self).camera == old(self).camera,
            final(self).bg_color == old(self).bg_color,
            final(self).width == old(self).width,
            final(self).height == old(self).height,
    {
        let sphere = Sphere {
            position: Vec3::new(pos.0, pos.1, pos.2),
            radius,
            material: make_material(color, diffuse, specular, specular_exponent, reflectiveness),
        };
        self.objects.push(Object::Sphere(sphere));
    }

    /// Adds a plane through `pos` with the unit normal `norm`.
    pub fn create_plane(
        &mut self,
        pos: (i64, i64, i64),
        norm: (i64, i64, i64),
        color: (u8, u8, u8),
        diffuse: Option<i64>,
        specular: Option<i64>,
        specular_exponent: Option<i64>,
        reflectiveness: Option<i64>,
    )
        ensures
            final(self).objects@ == old(self).objects@.push(
                Object::Plane(
                    Plane {
                        position: Vec3 { x: pos.0, y: pos.1, z: pos.2 },
                        normal: Vec3 { x: norm.0, y: norm.1, z: norm.2 },
                        material: material_of(
                            color,
                            diffuse,
                            specular,
                            specular_exponent,
                            reflectiveness,
                        ),
                    },
                ),
            ),
            final(self).lights@ == old(self).lights@,
            final(self).options == old(self).options,
            final(self).camera == old(self).camera,
            final(self).bg_color == old(self).bg_color,
            final(self).width == old(self).width,
            final(self).height == old(self).height,
    {
        let plane = Plane {
            position: Vec3::new(pos.0, pos.1, pos.2),
            normal: Vec3::new(norm.0, norm.1, norm.2),
            material: make_material(color, diffuse, specular, specular_exponent, reflectiveness),
        };
        self.objects.push(Object::Plane(plane));
    }

    /// Adds a point light at `pos`.
    pub fn create_point_light(&mut self, pos: (i64, i64, i64), intensity: i64, color: (u8, u8, u8))
        ensures
            final(self).lights@ == old(self).lights@.push(
                Light {
                    light_type: LightType::Point,
                    position: Vec3 { x: pos.0, y: pos.1, z: pos.2 },
                    intensity,
                    color: byte_color(color),
                },
            ),
            final(self).objects@ == old(self).objects@,
            final(self).options == old(self).options,
            final(self).camera == old(self).camera,
            final(self).bg_color == old(self).bg_color,
            final(self).width == old(self).width,
            final(self).height == old(self).height,
    {
        let light = Light {
            light_type: LightType::Point,
            position: Vec3::new(pos.0, pos.1, pos.2),
            intensity,
            color: Color::from_u8(color.0, color.1, color.2),
        };
        self.lights.push(light);
    }

    /// Adds an ambient light; intensity defaults to 0.25 and color to white.
    pub fn create_ambient_light(&mut self, intensity: Option<i64>, color: Option<(u8, u8, u8)>)
        ensures
            final(self).lights@ == old(self).lights@.push(
                Light {
                    light_type: LightType::Ambient,
                    position: mk(0, 0, 0),
                    intensity: or_default(intensity, DEFAULT_AMBIENT_INTENSITY),
                    color: byte_color(
                        match color {
                            Some(c) => c,
                            None => (255u8, 255u8, 255u8),
                        },
                    ),
                },
            ),
            final(self).objects@ == old(self).objects@,
            final(self).options == old(self).options,
            final(self).camera == old(self).camera,
            final(self).bg_color == old(self).bg_color,
            final(self).width == old(self).width,
            final(self).height == old(self).height,
    {
        let c = match color {
            Some(c) => c,
            None => (0xff, 0xff, 0xff),
        };
        let light = Light {
            light_type: LightType::Ambient,
            position: Vec3::zero(),
            intensity: pick(intensity, DEFAULT_AMBIENT_INTENSITY),
            color: Color::from_u8(c.0, c.1, c.2),
        };
        self.lights.push(light);
    }
}

} // verus!
