//! The single point light of a scene.

use crate::color::Color;
use crate::tuple::Tuple;
use vstd::prelude::*;

verus! {

/// A point light: a position and an intensity.
#[derive(Clone, Copy, Debug, PartialEq, Eq, Structural)]
pub struct PointLight {
    pub intensity: Color,
    pub position: Tuple,
}

impl PointLight {
    /// A light from its intensity and position.
    pub fn new(intensity: Color, position: Tuple) -> (r: PointLight)
        ensures
            r == (PointLight { intensity, position }),
    {
        PointLight { intensity, position }
    }
}

} // verus!
