//! The decisions of a ray caster.
//!
//! A ray caster works in real numbers: it casts a ray through every pixel,
//! solves for the place where the ray meets each object, and shades the
//! nearest of them under the light. The arithmetic of that is the caller's,
//! done in floating point. What follows from the arithmetic is decided here,
//! on integers, and proved:
//!
//! - [`shapes`]: whether a ray meets a sphere or a plane at all;
//! - [`tracer`]: which object a ray meets first;
//! - [`shader`]: whether a point lies in shadow, whether a surface faces the
//!   light, and the clamping of a colour;
//! - [`compositor`]: the loop over the pixels, from primary ray to raster;
//! - [`raster`]: the image that comes out;
//! - [`binary64`]: the order of the numbers themselves, and the cutting of a
//!   number down to a byte.
//!
//! A number crosses into this crate as its IEEE 754 binary64 bit pattern, a
//! `u64`, and a colour ready for output as three bytes.

pub mod binary64;
pub mod compositor;
pub mod raster;
pub mod shader;
pub mod shapes;
pub mod tracer;
