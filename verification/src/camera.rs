//! What the integrator of radiance decides along a path.
//!
//! The radiance that arrives along a ray is what the surface it hits gives
//! off, plus what arrives along the scattered ray, channel by channel
//! times the attenuation. Adding and multiplying is the caller's; when a
//! path ends, and with which colour, is decided here.

use vstd::prelude::*;
use crate::interval::Interval;
use crate::scalar::{Scalar, INFINITY};
use crate::traits::ScatterInfo;
use crate::vec3::{Color, Point3, Vec3};

verus! {

/// The rank of `0.001`: how far from its origin a ray must get before a
/// hit counts, lest a scattered ray hit the surface that it leaves.
pub const SHADOW_BIAS: Scalar = 0x3f50_624d_d2f1_a9fc;

/// What becomes of a path at one of its rays.
#[derive(Clone, Copy, Debug, PartialEq, Eq, Structural)]
pub enum Step {
    /// The path ends with this colour.
    Done(Color),
    /// The path gives off `emitted` and goes on with the scattered ray, of
    /// whose radiance `attenuation` arrives.
    Onward { emitted: Color, scattered: ScatterInfo },
}

/// What the integrator does with a ray that may be followed `depth` more
/// times: black once the depth is used up; the background where the ray
/// hits nothing; what the surface gives off where it scatters nothing; and
/// otherwise that, and on along the scattered ray.
pub open spec fn step_of(
    depth: i32,
    background: Color,
    found: Option<(Color, Option<ScatterInfo>)>,
) -> Step {
    if depth <= 0 {
        Step::Done(Vec3 { x: 0, y: 0, z: 0 })
    } else {
        match found {
            None => Step::Done(background),
            Some((emitted, None)) => Step::Done(emitted),
            Some((emitted, Some(scattered))) => Step::Onward { emitted, scattered },
        }
    }
}

/// Where a ray of the camera starts: at the centre of the lens where the
/// camera has no defocus angle, and elsewhere at the point sampled on the
/// defocus disk.
pub fn ray_origin(defocus_angle: Scalar, center: &Point3, on_disk: &Point3) -> (p: Point3)
    ensures
        p == (if defocus_angle <= 0 {
            *center
        } else {
            *on_disk
        }),
{
    if defocus_angle <= 0 {
        *center
    } else {
        *on_disk
    }
}

/// The height of an image in pixels, from the whole part of its width over
/// its aspect ratio: at least one.
pub fn image_height(quotient: u32) -> (h: u32)
    ensures
        h == (if quotient < 1 {
            1
        } else {
            quotient as int
        }),
{
    if quotient < 1 {
        1
    } else {
        quotient
    }
}

/// The window within which a ray is intersected with the scene.
pub fn primary_window() -> (w: Interval)
    ensures
        w == (Interval { min: SHADOW_BIAS, max: INFINITY }),
{
    Interval::new(SHADOW_BIAS, INFINITY)
}

/// Decides what becomes of a path. `found` is nothing where the ray hit
/// nothing, and otherwise what the surface gives off together with the
/// outcome of scattering.
pub fn ray_color(depth: i32, background: &Color, found: Option<(Color, Option<ScatterInfo>)>) -> (s:
    Step)
    ensures
        s == step_of(depth, *background, found),
{
    if depth <= 0 {
        return Step::Done(Vec3 { x: 0, y: 0, z: 0 });
    }
    match found {
        None => Step::Done(*background),
        Some((emitted, None)) => Step::Done(emitted),
        Some((emitted, Some(scattered))) => Step::Onward { emitted, scattered },
    }
}

} // verus!
