//! Light sources.
use crate::color::Color;
use crate::material::unit_color;
use crate::vector::Vec3;
use vstd::prelude::*;

verus! {

#[derive(Clone, Copy, Debug, PartialEq, Eq, Structural)]
pub enum LightType {
    /// Light from a position, casting shadows and highlights.
    Point,
    /// Light from everywhere; its position is unused and it is never shadowed.
    Ambient,
}

#[derive(Clone, Copy, Debug, PartialEq, Eq, Structural)]
pub struct Light {
    pub light_type: LightType,
    pub position: Vec3,
    /// A non-negative fixed-point multiplier.
    pub intensity: i64,
    pub color: Color,
}

/// A light with a non-negative intensity and a color in `[0, 1]`.
pub open spec fn valid_light(l: Light) -> bool {
    l.intensity >= 0 && unit_color(l.color)
}

} // verus!
