//! What a sphere decides once the quadratic has been solved.
//!
//! A ray meets a sphere where a quadratic in the ray parameter vanishes.
//! Solving it is arithmetic; which of its roots is the hit, if any, is a
//! matter of comparing them with the window.

use vstd::prelude::*;
use crate::aabb::AABB;
use crate::hittables::{Crossing, HitRecord};
use crate::interval::Interval;
use crate::scalar::Scalar;
use crate::traits::upper_after;

verus! {

/// The root that counts: none if the discriminant is negative; otherwise
/// the nearer root if it lies strictly inside the window, else the farther
/// one if that does, else none.
pub open spec fn chosen_root(discriminant: Scalar, near: Scalar, far: Scalar, w: Interval) -> Option<
    Scalar,
> {
    if discriminant < 0 {
        None
    } else if w.encloses(near as int) {
        Some(near)
    } else if w.encloses(far as int) {
        Some(far)
    } else {
        None
    }
}

/// Picks the root of the quadratic at which the ray hits the sphere.
/// `near` and `far` are its two roots, the smaller first; with a negative
/// discriminant there are none, and whatever is passed for them is ignored.
pub fn nearest_root(discriminant: Scalar, near: Scalar, far: Scalar, ray_t: &Interval) -> (r: Option<
    Scalar,
>)
    ensures
        r == chosen_root(discriminant, near, far, *ray_t),
{
    if discriminant < 0 {
        return None;
    }
    let mut root = near;
    if !ray_t.surrounds(root) {
        root = far;
        if !ray_t.surrounds(root) {
            return None;
        }
    }
    Some(root)
}

/// What a ray finds on a sphere: nothing if the discriminant is negative;
/// otherwise the nearer crossing if it lies strictly inside the window,
/// else the farther one if that does, else nothing.
pub open spec fn found(
    discriminant: Scalar,
    near: Crossing,
    far: Crossing,
    material: usize,
    w: Interval,
) -> Option<HitRecord> {
    match chosen_root(discriminant, near.t, far.t, w) {
        Some(t) => if w.encloses(near.t as int) {
            Some(near.recorded(material))
        } else {
            Some(far.recorded(material))
        },
        None => None,
    }
}

/// The hit of a ray on a sphere. `near` and `far` are the two crossings of
/// the ray with the sphere, the nearer first; with a negative discriminant
/// there are none, and whatever is passed for them is ignored. On a hit the
/// window's upper end is tightened to it.
pub fn hit(
    discriminant: Scalar,
    near: &Crossing,
    far: &Crossing,
    material: usize,
    ray_t: &mut Interval,
) -> (res: Option<HitRecord>)
    ensures
        res == found(discriminant, *near, *far, material, *old(ray_t)),
        res matches Some(rec) ==> old(ray_t).min < rec.t < old(ray_t).max,
        final(ray_t).min == old(ray_t).min,
        final(ray_t).max == upper_after(res, old(ray_t).max),
{
    match nearest_root(discriminant, near.t, far.t, ray_t) {
        Some(root) => {
            let rec = if ray_t.surrounds(near.t) {
                near.record(material)
            } else {
                far.record(material)
            };
            ray_t.max = rec.t;
            Some(rec)
        },
        None => None,
    }
}

/// The box of a sphere that moves in a straight line during the shutter
/// interval: the hull of its box at the start and its box at the end.
pub fn swept_bounds(at_start: &AABB, at_end: &AABB) -> (r: AABB)
    ensures
        r == AABB::hull(*at_start, *at_end),
        r.includes(*at_start),
        r.includes(*at_end),
{
    AABB::merge(at_start, at_end)
}

/// A root on the edge of the window does not count: the window is open.
pub proof fn lemma_root_on_edge(discriminant: Scalar, root: Scalar, w: Interval)
    requires
        root == w.min || root == w.max,
    ensures
        chosen_root(discriminant, root, root, w) is None,
{
}

/// The root that is chosen lies strictly inside the window, and lowering
/// the upper end of the window keeps the choice while the chosen root stays
/// below that end, and leaves nothing once it does not.
pub proof fn lemma_root_orderly(discriminant: Scalar, near: Scalar, far: Scalar, w: Interval, h: Scalar)
    requires
        near <= far,
        h <= w.max,
    ensures
        chosen_root(discriminant, near, far, w) matches Some(t) ==> w.min < t < w.max,
        chosen_root(discriminant, near, far, Interval { min: w.min, max: h }) == (match chosen_root(
            discriminant,
            near,
            far,
            w,
        ) {
            Some(t) => if t < h {
                Some(t)
            } else {
                None
            },
            None => None,
        }),
{
}

} // verus!
