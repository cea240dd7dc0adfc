//! Shading coefficients of a surface.
use crate::color::{rgb, Color};
use crate::fixed::SCALE;
use vstd::prelude::*;

verus! {

/// A surface's material; every coefficient is a fixed-point scalar.
///
/// `diffuse` scales diffuse and ambient light, `specular` and `specular_exponent` shape the
/// highlight, and `reflectiveness` (in `[0, 1]`) is the share of the color that comes from the
/// mirror direction.
#[derive(Clone, Copy, Debug, PartialEq, Eq, Structural)]
pub struct Material {
    pub color: Color,
    pub diffuse: i64,
    pub specular: i64,
    pub specular_exponent: i64,
    pub reflectiveness: i64,
}

/// A channel in `[0, 1]`.
pub open spec fn unit_channel(c: i64) -> bool {
    0 <= c <= SCALE
}

pub open spec fn unit_color(c: Color) -> bool {
    unit_channel(c.r) && unit_channel(c.g) && unit_channel(c.b)
}

/// Coefficients as a scene uses them: color in `[0, 1]`, non-negative diffuse and
/// specular coefficients, a positive exponent and a reflectiveness in `[0, 1]`.
pub open spec fn valid_material(m: Material) -> bool {
    unit_color(m.color) && m.diffuse >= 0 && m.specular >= 0 && m.specular_exponent > 0 && 0
        <= m.reflectiveness <= SCALE
}

impl Material {
    /// A black material that neither diffuses, shines nor reflects.
    pub fn neutral() -> (m: Material)
        ensures
            m == (Material {
                color: rgb(0, 0, 0),
                diffuse: 0,
                specular: 0,
                specular_exponent: 0,
                reflectiveness: 0,
            }),
    {
        Material {
            color: Color::black(),
            diffuse: 0,
            specular: 0,
            specular_exponent: 0,
            reflectiveness: 0,
        }
    }
}

} // verus!
