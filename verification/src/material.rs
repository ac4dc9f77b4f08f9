use crate::image::Color;
use crate::scalar::Scalar;
use vstd::prelude::*;

verus! {

/// The pattern of `8`.
pub const EIGHT_BITS: u64 = 0x4020_0000_0000_0000u64;

/// A diffuse surface: `albedo` is what it reflects of each channel.
#[derive(Clone, Copy, Debug)]
pub struct Lambertian {
    pub albedo: Color,
}

impl Lambertian {
    pub fn new(albedo: Color) -> (r: Lambertian)
        ensures
            r.albedo == albedo,
    {
        Lambertian { albedo }
    }
}

/// The materials that an object can have.
#[derive(Clone, Copy, Debug)]
pub enum Material {
    Lambertian(Lambertian),
}

impl Material {
    /// What the material reflects of each channel.
    pub fn albedo(&self) -> (r: Color)
        ensures
            r == match *self {
                Material::Lambertian(m) => m.albedo,
            },
    {
        match self {
            Material::Lambertian(m) => m.albedo,
        }
    }
}

/// The material of an object that was given none: diffuse, with an albedo of
/// `8` in every channel.
pub fn default() -> (r: Lambertian)
    ensures
        r.albedo == (Color {
            red: Scalar { bits: EIGHT_BITS },
            green: Scalar { bits: EIGHT_BITS },
            blue: Scalar { bits: EIGHT_BITS },
        }),
{
    Lambertian::new(
        Color::new(
            Scalar::from_bits(EIGHT_BITS),
            Scalar::from_bits(EIGHT_BITS),
            Scalar::from_bits(EIGHT_BITS),
        ),
    )
}

} // verus!
