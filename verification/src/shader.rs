//! The decisions of diffuse shading under one directional light: whether a
//! point is in shadow, whether a surface faces the light, and the clamping of
//! a colour before it is cut down to eight bits a channel.

use crate::binary64::{ge, is_nan, less_than, lt, ONE, ZERO};
use crate::tracer::{misses, trace, Hit};
use vstd::prelude::*;

verus! {

/// An RGB colour; each channel is the bit pattern of a binary64 number.
/// Nothing bounds a channel until the colour is clamped.
#[derive(Clone, Copy, Debug)]
pub struct Color {
    pub r: u64,
    pub g: u64,
    pub b: u64,
}

/// The number lies in `[0, 1]`.
pub open spec fn in_unit(channel: u64) -> bool {
    ge(channel, ZERO) && ge(ONE, channel)
}

/// The channel brought into `[0, 1]`: what is greater than 1, and a NaN,
/// becomes 1; what is less than 0 becomes 0; the rest stays as it is.
pub open spec fn clamped(channel: u64) -> u64 {
    if is_nan(channel) || lt(ONE, channel) {
        ONE
    } else if lt(channel, ZERO) {
        ZERO
    } else {
        channel
    }
}

/// Brings one channel into `[0, 1]`.
fn clamp_channel(channel: u64) -> (r: u64)
    ensures
        r == clamped(channel),
        in_unit(r),
        in_unit(channel) ==> r == channel,
{
    if less_than(channel, ZERO) {
        ZERO
    } else if less_than(channel, ONE) {
        channel
    } else {
        ONE
    }
}

impl Color {
    /// Brings every channel into `[0, 1]`. A channel that is already there is
    /// left as it is.
    pub fn clamp(self) -> (c: Color)
        ensures
            c.r == clamped(self.r),
            c.g == clamped(self.g),
            c.b == clamped(self.b),
            in_unit(c.r) && in_unit(c.g) && in_unit(c.b),
            in_unit(self.r) ==> c.r == self.r,
            in_unit(self.g) ==> c.g == self.g,
            in_unit(self.b) ==> c.b == self.b,
    {
        Color { r: clamp_channel(self.r), g: clamp_channel(self.g), b: clamp_channel(self.b) }
    }
}

/// The light that reaches a surface point: none at all when anything stands
/// between the point and the light, the light's full `intensity` otherwise.
///
/// `shadow_hits` is where the shadow ray, cast from the point towards the
/// light, meets each object of the scene. The light is infinitely far away,
/// so an object casts its shadow however far along the ray it is met.
pub fn light_intensity<P>(shadow_hits: &[Option<Hit<P>>], intensity: u64) -> (reaching: u64)
    ensures
        misses(shadow_hits@) ==> reaching == intensity,
        !misses(shadow_hits@) ==> reaching == ZERO,
{
    match trace(shadow_hits) {
        Some(_) => ZERO,
        None => intensity,
    }
}

/// How much of the light a surface takes, given the cosine of the angle
/// between its normal and the direction to the light: the cosine itself
/// where the surface faces the light, zero where it is turned away.
pub fn facing_light(cosine: u64) -> (share: u64)
    ensures
        lt(ZERO, cosine) ==> share == cosine,
        !lt(ZERO, cosine) ==> share == ZERO,
{
    if less_than(ZERO, cosine) {
        cosine
    } else {
        ZERO
    }
}

} // verus!
