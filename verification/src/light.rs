use crate::image::Color;
use crate::scalar::Scalar;
use crate::vec3::Vec3;
use vstd::prelude::*;

verus! {

/// A light at one point, whose intensity falls off with the square of the
/// distance.
#[derive(Clone, Copy, Debug)]
pub struct PointSource {
    pub position: Vec3,
    pub color: Color,
    pub intensity: Scalar,
}

impl PointSource {
    pub fn new(position: Vec3, color: Color, intensity: Scalar) -> (r: PointSource)
        ensures
            r == (PointSource { position, color, intensity }),
    {
        PointSource { position, color, intensity }
    }

    /// Where a shadow ray towards this light starts: its position.
    pub fn sample(&self) -> (r: Vec3)
        ensures
            r == self.position,
    {
        self.position
    }

    /// The colour that the light emits.
    pub fn color(&self) -> (r: Color)
        ensures
            r == self.color,
    {
        self.color
    }
}

/// The lights that a scene can hold.
#[derive(Clone, Copy, Debug)]
pub enum Light {
    Point(PointSource),
}

impl Light {
    /// Where a shadow ray towards this light starts.
    pub fn sample(&self) -> (r: Vec3)
        ensures
            r == match *self {
                Light::Point(source) => source.position,
            },
    {
        match self {
            Light::Point(source) => source.sample(),
        }
    }

    /// The colour that the light emits.
    pub fn color(&self) -> (r: Color)
        ensures
            r == match *self {
                Light::Point(source) => source.color,
            },
    {
        match self {
            Light::Point(source) => source.color(),
        }
    }
}

} // verus!
