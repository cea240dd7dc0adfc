//! Render options.
use vstd::prelude::*;

verus! {

#[derive(Clone, Copy, Debug, PartialEq, Eq, Structural)]
pub struct Options {
    /// The deepest reflection bounce that is traced; the primary ray has depth 0.
    pub max_rays: u8,
    /// Fixed-point gamma exponent of the final encoding.
    pub gamma: i64,
    pub diffuse: bool,
    pub specular: bool,
    pub shadows: bool,
    pub reflections: bool,
}

} // verus!
