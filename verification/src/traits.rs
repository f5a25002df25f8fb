//! What a shape owes the kernel.

use vstd::prelude::*;
use crate::aabb::AABB;
use crate::hittables::HitRecord;
use crate::interval::Interval;
use crate::ray::Ray;
use crate::scalar::Scalar;
use crate::vec3::{Color, Point3};

verus! {

/// What a material makes of a ray that hits it: the ray that goes on, and
/// how much of each channel it carries.
#[derive(Clone, Copy, Debug, PartialEq, Eq, Structural)]
pub struct ScatterInfo {
    pub attenuation: Color,
    pub ray_scattered: Ray,
}

/// Anything a ray can be intersected with.
///
/// An implementor says, as functions of its arguments alone, where a ray
/// meets it and which box encloses it, and brings the one piece of
/// arithmetic that culling by boxes needs: where a ray enters and leaves the
/// slab between two parallel planes. The aggregates of this library are
/// proved against these three functions. What the functions themselves must
/// satisfy for an aggregate to find the nearest hit is spelled out by
/// [`crate::bvh::orderly`].
pub trait Hittable {
    /// The intersection that `hit` reports for `ray` within the open window
    /// from `lo` to `hi`.
    spec fn hit_spec(&self, ray: Ray, lo: Scalar, hi: Scalar) -> Option<HitRecord>;

    /// The box that `bounding_box` reports.
    spec fn bounding_box_spec(&self) -> AABB;

    /// The ray parameters at which a ray that starts at coordinate `origin`
    /// and advances by `direction` per unit enters (`min`) and leaves
    /// (`max`) the slab `bounds` of the same axis.
    spec fn slab_spec(bounds: Interval, origin: Scalar, direction: Scalar) -> Interval;

    /// Intersects `ray` with the object within the window `ray_t`. A hit
    /// lies strictly inside the window, and the window's upper end is
    /// tightened to it, so that whoever asks next looks only for something
    /// nearer.
    fn hit(&self, ray: &Ray, ray_t: &mut Interval) -> (res: Option<HitRecord>)
        ensures
            res == self.hit_spec(*ray, old(ray_t).min, old(ray_t).max),
            res matches Some(rec) ==> old(ray_t).min < rec.t < old(ray_t).max,
            final(ray_t).min == old(ray_t).min,
            final(ray_t).max == upper_after(res, old(ray_t).max),
    ;

    /// A box that encloses the object at every moment of the shutter
    /// interval.
    fn bounding_box(&self) -> (r: AABB)
        ensures
            r == self.bounding_box_spec(),
    ;

    /// Entry and exit of a ray through one slab.
    fn slab(bounds: &Interval, origin: Scalar, direction: Scalar) -> (r: Interval)
        ensures
            r == Self::slab_spec(*bounds, origin, direction),
    ;
}

/// Anything that gives a surface its colour.
pub trait Texture {
    /// The colour that `value` reports.
    spec fn value_spec(&self, u: Scalar, v: Scalar, p: Point3) -> Color;

    /// The colour at the surface coordinates `(u, v)` and the point `p`.
    fn value(&self, u: Scalar, v: Scalar, p: &Point3) -> (c: Color)
        ensures
            c == self.value_spec(u, v, *p),
    ;
}

/// The upper end of the window once `res` has been found in a window that
/// ended at `hi`.
pub open spec fn upper_after(res: Option<HitRecord>, hi: Scalar) -> Scalar {
    match res {
        Some(rec) => rec.t,
        None => hi,
    }
}

} // verus!
