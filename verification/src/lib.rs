//! The decision core of a Whitted-style ray tracer.
//!
//! Scalars are IEEE-754 binary64 values held as their bit patterns. The
//! library classifies, compares, negates and truncates them exactly, holds
//! the scene and the raster, and decides which candidate intersection is a
//! hit, which object a ray sees first, whether a light is occluded, and
//! which lights reach a point. The rounding arithmetic that produces the
//! candidates is the caller's.

pub mod scalar;
pub mod value;
pub mod vec3;
pub mod ray;
pub mod image;
pub mod geometry;
pub mod light;
pub mod material;
pub mod object;
pub mod scene;
