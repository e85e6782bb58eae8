//! Point lights.
use vstd::prelude::*;
use crate::color::Color;
use crate::scalar::Scalar;
use crate::vector::Vec3;

verus! {

/// A light that shines from one point in every direction.
#[derive(Debug, Clone, Copy)]
pub struct Light {
    pub position: Vec3,
    pub color: Color,
    pub intensity: Scalar,
}

impl Light {
    /// The light at `position` with the given colour and intensity.
    pub fn new(position: Vec3, color: Color, intensity: Scalar) -> (light: Light)
        ensures
            light == (Light { position, color, intensity }),
    {
        Light { position, color, intensity }
    }
}

} // verus!
