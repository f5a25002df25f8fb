//! What a quadrilateral decides once the plane has been intersected, and
//! the six faces of a box.

use vstd::prelude::*;
use crate::hittables::{Crossing, HitRecord};
use crate::interval::Interval;
use crate::scalar::{Scalar, ONE, negated};
use crate::traits::upper_after;
use crate::vec3::{Point3, Vec3, NEAR_ZERO};

verus! {

/// The ray runs along the plane: the dot product of the plane's normal with
/// the ray's direction lies strictly between `-1e-8` and `1e-8`.
pub open spec fn parallel(denom: Scalar) -> bool {
    negated(NEAR_ZERO as int) < denom < NEAR_ZERO
}

/// The planar coordinates `a` and `b` name a point of the quadrilateral:
/// each lies between zero and one, ends included.
pub open spec fn interior(a: Scalar, b: Scalar) -> bool {
    0 <= a <= ONE && 0 <= b <= ONE
}

/// The ray hits the quadrilateral: it does not run along the plane, meets
/// the plane strictly inside the window, and does so within the edges.
pub open spec fn struck(denom: Scalar, t: Scalar, alpha: Scalar, beta: Scalar, w: Interval) -> bool {
    !parallel(denom) && w.encloses(t as int) && interior(alpha, beta)
}

/// Whether a ray runs along the plane of a quadrilateral.
pub fn is_parallel(denom: Scalar) -> (r: bool)
    ensures
        r == parallel(denom),
{
    -NEAR_ZERO - 1 < denom && denom < NEAR_ZERO
}

/// Whether planar coordinates fall within the quadrilateral.
pub fn is_interior(a: Scalar, b: Scalar) -> (r: bool)
    ensures
        r == interior(a, b),
{
    if a < 0 || a > ONE || b < 0 || b > ONE {
        false
    } else {
        true
    }
}

/// Whether a ray hits a quadrilateral. `denom` is the dot product of the
/// plane's normal with the ray's direction, `t` the ray parameter at which
/// the ray meets the plane, `alpha` and `beta` the planar coordinates of
/// that point along the two edges.
pub fn is_hit(denom: Scalar, t: Scalar, alpha: Scalar, beta: Scalar, ray_t: &Interval) -> (r: bool)
    ensures
        r == struck(denom, t, alpha, beta, *ray_t),
{
    if is_parallel(denom) {
        return false;
    }
    if !ray_t.surrounds(t) {
        return false;
    }
    is_interior(alpha, beta)
}

/// What a ray finds on a quadrilateral: where it is struck, the record of
/// the crossing with the plane, and nothing elsewhere. The crossing's
/// `facing` is the dot product of the plane's normal with the ray's
/// direction, and its texture coordinates are the planar coordinates.
pub open spec fn found(crossing: Crossing, material: usize, w: Interval) -> Option<HitRecord> {
    if struck(crossing.facing, crossing.t, crossing.u, crossing.v, w) {
        Some(crossing.recorded(material))
    } else {
        None
    }
}

/// The hit of a ray on a quadrilateral. `crossing` is where the ray meets
/// the plane. A ray that runs along the plane misses, whatever else is
/// passed, and leaves the window as it was; on a hit the window's upper end
/// is tightened to it.
pub fn hit(crossing: &Crossing, material: usize, ray_t: &mut Interval) -> (res: Option<HitRecord>)
    ensures
        res == found(*crossing, material, *old(ray_t)),
        parallel(crossing.facing) ==> res is None,
        res matches Some(rec) ==> old(ray_t).min < rec.t < old(ray_t).max,
        final(ray_t).min == old(ray_t).min,
        final(ray_t).max == upper_after(res, old(ray_t).max),
{
    if !is_hit(crossing.facing, crossing.t, crossing.u, crossing.v, ray_t) {
        return None;
    }
    let rec = crossing.record(material);
    ray_t.max = rec.t;
    Some(rec)
}

/// A ray that runs along the plane misses the quadrilateral.
pub proof fn lemma_parallel_misses(denom: Scalar, t: Scalar, alpha: Scalar, beta: Scalar, w: Interval)
    requires
        parallel(denom),
    ensures
        !struck(denom, t, alpha, beta, w),
{
}

/// A quadrilateral by its anchor and its two edges.
#[derive(Clone, Copy, Debug, PartialEq, Eq, Structural)]
pub struct QuadFrame {
    pub q: Point3,
    pub u: Vec3,
    pub v: Vec3,
}

/// The six faces of the box between the corners `lo` and `hi`, whose
/// extents along the axes are `extent`: front, right, back, left, top and
/// bottom.
pub open spec fn faces(lo: Point3, hi: Point3, extent: Vec3) -> Seq<QuadFrame> {
    let dx = Vec3 { x: extent.x, y: 0, z: 0 };
    let dy = Vec3 { x: 0, y: extent.y, z: 0 };
    let dz = Vec3 { x: 0, y: 0, z: extent.z };
    seq![
        QuadFrame { q: Vec3 { x: lo.x, y: lo.y, z: hi.z }, u: dx, v: dy },
        QuadFrame { q: Vec3 { x: hi.x, y: lo.y, z: hi.z }, u: dz.reversed(), v: dy },
        QuadFrame { q: Vec3 { x: hi.x, y: lo.y, z: lo.z }, u: dx.reversed(), v: dy },
        QuadFrame { q: Vec3 { x: lo.x, y: lo.y, z: lo.z }, u: dz, v: dy },
        QuadFrame { q: Vec3 { x: lo.x, y: hi.y, z: hi.z }, u: dx, v: dz.reversed() },
        QuadFrame { q: Vec3 { x: lo.x, y: lo.y, z: lo.z }, u: dx, v: dz },
    ]
}

/// The lower corner of the box spanned by `a` and `b`.
pub open spec fn lower_corner(a: Point3, b: Point3) -> Point3 {
    Vec3 {
        x: crate::scalar::min_of(a.x as int, b.x as int) as Scalar,
        y: crate::scalar::min_of(a.y as int, b.y as int) as Scalar,
        z: crate::scalar::min_of(a.z as int, b.z as int) as Scalar,
    }
}

/// The upper corner of the box spanned by `a` and `b`.
pub open spec fn upper_corner(a: Point3, b: Point3) -> Point3 {
    Vec3 {
        x: crate::scalar::max_of(a.x as int, b.x as int) as Scalar,
        y: crate::scalar::max_of(a.y as int, b.y as int) as Scalar,
        z: crate::scalar::max_of(a.z as int, b.z as int) as Scalar,
    }
}

/// The six faces of the axis-aligned box with the opposite corners `a` and
/// `b`, given in any order. `extent` holds the lengths of the box along the
/// three axes: the differences of the upper and the lower corner.
pub fn create_box(a: &Point3, b: &Point3, extent: &Vec3) -> (sides: Vec<QuadFrame>)
    ensures
        sides@ == faces(lower_corner(*a, *b), upper_corner(*a, *b), *extent),
{
    let min = Vec3 {
        x: crate::scalar::min(a.x, b.x),
        y: crate::scalar::min(a.y, b.y),
        z: crate::scalar::min(a.z, b.z),
    };
    let max = Vec3 {
        x: crate::scalar::max(a.x, b.x),
        y: crate::scalar::max(a.y, b.y),
        z: crate::scalar::max(a.z, b.z),
    };
    let dx = Vec3 { x: extent.x, y: 0, z: 0 };
    let dy = Vec3 { x: 0, y: extent.y, z: 0 };
    let dz = Vec3 { x: 0, y: 0, z: extent.z };
    let mut sides: Vec<QuadFrame> = Vec::new();
    sides.push(QuadFrame { q: Vec3 { x: min.x, y: min.y, z: max.z }, u: dx, v: dy });
    sides.push(QuadFrame { q: Vec3 { x: max.x, y: min.y, z: max.z }, u: dz.reverse(), v: dy });
    sides.push(QuadFrame { q: Vec3 { x: max.x, y: min.y, z: min.z }, u: dx.reverse(), v: dy });
    sides.push(QuadFrame { q: Vec3 { x: min.x, y: min.y, z: min.z }, u: dz, v: dy });
    sides.push(QuadFrame { q: Vec3 { x: min.x, y: max.y, z: max.z }, u: dx, v: dz.reverse() });
    sides.push(QuadFrame { q: Vec3 { x: min.x, y: min.y, z: min.z }, u: dx, v: dz });
    assert(sides@ =~= faces(lower_corner(*a, *b), upper_corner(*a, *b), *extent));
    sides
}

} // verus!
