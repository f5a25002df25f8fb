//! A medium of constant density inside a boundary.
//!
//! A ray scatters in the medium somewhere between the point where it
//! enters the boundary and the point where it leaves it, or passes
//! through. How far it gets is drawn at random and is arithmetic; here is
//! what is asked of the boundary, and what is made of its answers.

use vstd::prelude::*;
use crate::aabb::AABB;
use crate::hittables::HitRecord;
use crate::interval::Interval;
use crate::ray::Ray;
use crate::scalar::{Scalar, INFINITY, NEG_INFINITY, max_of, min_of};
use crate::traits::Hittable;
use crate::vec3::{Point3, Vec3};

verus! {

/// A boundary filled with a medium.
pub struct ConstantMedium<B: Hittable> {
    pub boundary: B,
    pub neg_inv_density: Scalar,
    pub phase_function: usize,
}

/// The stretch of the ray inside the boundary that falls into the window:
/// from the later of entry and lower end to the earlier of exit and upper
/// end; nothing if that stretch has no length.
pub open spec fn stretch(entry: Scalar, exit: Scalar, w: Interval) -> Option<Interval> {
    let from = max_of(entry as int, w.min as int) as Scalar;
    let to = min_of(exit as int, w.max as int) as Scalar;
    if from >= to {
        None
    } else {
        Some(Interval { min: from, max: to })
    }
}

impl<B: Hittable> ConstantMedium<B> {
    /// A medium within `boundary`. `neg_inv_density` is the negated inverse
    /// of its density, `phase_function` the handle of the material that
    /// scatters in all directions alike.
    pub fn new(boundary: B, neg_inv_density: Scalar, phase_function: usize) -> (r: Self)
        ensures
            r.boundary == boundary,
            r.neg_inv_density == neg_inv_density,
            r.phase_function == phase_function,
    {
        ConstantMedium { boundary, neg_inv_density, phase_function }
    }

    /// Where the ray enters the boundary: its first hit anywhere along the
    /// line of the ray.
    pub fn entry(&self, ray: &Ray) -> (r: Option<HitRecord>)
        ensures
            r == self.boundary.hit_spec(*ray, NEG_INFINITY, INFINITY),
    {
        let mut whole = Interval::universe();
        self.boundary.hit(ray, &mut whole)
    }

    /// Where the ray leaves the boundary: its first hit beyond `after`,
    /// which lies a little behind the entry.
    pub fn exit(&self, ray: &Ray, after: Scalar) -> (r: Option<HitRecord>)
        ensures
            r == self.boundary.hit_spec(*ray, after, INFINITY),
    {
        let mut rest = Interval::new(after, INFINITY);
        self.boundary.hit(ray, &mut rest)
    }

    /// The part of the window that the ray spends inside the boundary.
    pub fn span(entry: Scalar, exit: Scalar, ray_t: &Interval) -> (r: Option<Interval>)
        ensures
            r == stretch(entry, exit, *ray_t),
    {
        let from = if entry < ray_t.min {
            ray_t.min
        } else {
            entry
        };
        let to = if exit > ray_t.max {
            ray_t.max
        } else {
            exit
        };
        if from >= to {
            None
        } else {
            Some(Interval { min: from, max: to })
        }
    }

    /// Whether the ray scatters before it has left the boundary: whether
    /// the distance drawn for it is no longer than the way inside.
    pub fn scatters(hit_distance: Scalar, distance_inside_boundary: Scalar) -> (r: bool)
        ensures
            r == (hit_distance <= distance_inside_boundary),
    {
        !(hit_distance > distance_inside_boundary)
    }

    /// The record of a scattering at `point`, reached at the ray parameter
    /// `t`. A medium has no surface: the normal is left at zero and the
    /// side is set to the front.
    pub fn scatter_record(&self, point: Point3, t: Scalar) -> (r: HitRecord)
        ensures
            r == (HitRecord {
                point,
                normal: Vec3 { x: 0, y: 0, z: 0 },
                material: self.phase_function,
                t,
                u: 0,
                v: 0,
                front_face: true,
            }),
    {
        let mut rec = HitRecord::new(point, self.phase_function, t, 0, 0);
        rec.front_face = true;
        rec
    }

    /// The box of the medium is that of its boundary.
    pub fn bounding_box(&self) -> (r: AABB)
        ensures
            r == self.boundary.bounding_box_spec(),
    {
        self.boundary.bounding_box()
    }
}

} // verus!
