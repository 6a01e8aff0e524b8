use vstd::prelude::*;
use crate::color::Color;
use crate::tuples::Point;

verus! {

/// A light without size, at a point.
#[derive(Debug, Clone, Copy)]
pub struct PointLight {
    pub position: Point,
    pub intensity: Color,
}

impl PointLight {
    pub open spec fn spec_new(position: Point, intensity: Color) -> PointLight {
        PointLight { position, intensity }
    }

    #[verifier::when_used_as_spec(spec_new)]
    pub fn new(position: Point, intensity: Color) -> (r: PointLight)
        ensures
            r == PointLight::spec_new(position, intensity),
    {
        PointLight { position, intensity }
    }
}

} // verus!
