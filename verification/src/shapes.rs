//! Whether a ray meets a sphere or a plane, decided on the quantities that
//! the caller has worked out from the geometry.

use crate::binary64::{at_least, ge, less_than, lt, ZERO};
use crate::tracer::Hit;
use vstd::prelude::*;

verus! {

/// The pattern of 1e-6. A ray whose direction has no more than this much of
/// a plane's normal in it counts as running alongside the plane, or as
/// coming at it from behind.
pub const EPSILON: u64 = 0x3eb0_c6f7_a0b5_ed8d;

/// A ray passes a sphere by when its closest approach to the centre, squared,
/// is greater than the radius squared.
pub open spec fn passes_by(approach_squared: u64, radius_squared: u64) -> bool {
    lt(radius_squared, approach_squared)
}

/// A ray meets the lit side of a plane when `facing`, the dot product of the
/// plane's normal with the ray's direction, is greater than `EPSILON`, and
/// the plane lies `distance >= 0` ahead of the ray's origin.
pub open spec fn meets_plane(facing: u64, distance: u64) -> bool {
    lt(EPSILON, facing) && ge(distance, ZERO)
}

/// The hit of a ray on a sphere, if there is one.
///
/// `approach_squared` is the squared distance between the sphere's centre and
/// the point of the ray's line that is closest to it; `distance` and `point`
/// say where along the ray, and where in space, the hit would be.
pub fn sphere_hit<P>(approach_squared: u64, radius_squared: u64, distance: u64, point: P) -> (hit:
    Option<Hit<P>>)
    ensures
        passes_by(approach_squared, radius_squared) ==> hit is None,
        !passes_by(approach_squared, radius_squared) ==> hit == Some((Hit { distance, point })),
{
    if less_than(radius_squared, approach_squared) {
        None
    } else {
        Some(Hit { distance, point })
    }
}

/// The hit of a ray on a plane, if there is one.
///
/// `facing` is the dot product of the plane's normal with the ray's
/// direction; `distance` and `point` say where along the ray, and where in
/// space, the hit would be. A plane is met from one side only.
pub fn plane_hit<P>(facing: u64, distance: u64, point: P) -> (hit: Option<Hit<P>>)
    ensures
        meets_plane(facing, distance) ==> hit == Some((Hit { distance, point })),
        !meets_plane(facing, distance) ==> hit is None,
        !lt(EPSILON, facing) ==> hit is None,
        lt(distance, ZERO) ==> hit is None,
{
    if less_than(EPSILON, facing) && at_least(distance, ZERO) {
        Some(Hit { distance, point })
    } else {
        None
    }
}

} // verus!
