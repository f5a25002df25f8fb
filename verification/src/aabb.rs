//! Axis-aligned bounding boxes and the slab test.

use vstd::prelude::*;
use crate::interval::Interval;
use crate::ray::Ray;
use crate::scalar::{Scalar, min_of, max_of, min, max};
use crate::traits::Hittable;
use crate::vec3::{Point3, Vec3};

verus! {

/// A box: one interval per axis.
#[derive(Clone, Copy, Debug, PartialEq, Eq, Structural)]
pub struct AABB {
    pub x: Interval,
    pub y: Interval,
    pub z: Interval,
}

/// The window `w` cut down to what `slab` leaves of it.
pub open spec fn narrowed(w: Interval, slab: Interval) -> Interval {
    Interval {
        min: max_of(w.min as int, slab.min as int) as Scalar,
        max: min_of(w.max as int, slab.max as int) as Scalar,
    }
}

/// The window `w` after the slabs of the three axes have cut it in turn.
pub open spec fn clipped(sx: Interval, sy: Interval, sz: Interval, w: Interval) -> Interval {
    narrowed(narrowed(narrowed(w, sx), sy), sz)
}

/// The slab test: after each of the three cuts the window still has its
/// lower end strictly below its upper end.
pub open spec fn pierced(sx: Interval, sy: Interval, sz: Interval, w: Interval) -> bool {
    let w1 = narrowed(w, sx);
    let w2 = narrowed(w1, sy);
    let w3 = narrowed(w2, sz);
    w1.min < w1.max && w2.min < w2.max && w3.min < w3.max
}

impl AABB {
    /// The interval of axis `n`: 1 is y, 2 is z, anything else is x.
    pub open spec fn side(self, n: int) -> Interval {
        if n == 1 {
            self.y
        } else if n == 2 {
            self.z
        } else {
            self.x
        }
    }

    /// The lower end of the box along axis `n`.
    pub open spec fn low(self, n: u32) -> Scalar {
        self.side(n as int).min
    }

    /// The box spanned by two opposite corners, given in any order.
    pub open spec fn spanning(a: Point3, b: Point3) -> AABB {
        AABB {
            x: Interval {
                min: min_of(a.x as int, b.x as int) as Scalar,
                max: max_of(a.x as int, b.x as int) as Scalar,
            },
            y: Interval {
                min: min_of(a.y as int, b.y as int) as Scalar,
                max: max_of(a.y as int, b.y as int) as Scalar,
            },
            z: Interval {
                min: min_of(a.z as int, b.z as int) as Scalar,
                max: max_of(a.z as int, b.z as int) as Scalar,
            },
        }
    }

    /// The smallest box that includes both `a` and `b`.
    pub open spec fn hull(a: AABB, b: AABB) -> AABB {
        AABB {
            x: Interval::hull(a.x, b.x),
            y: Interval::hull(a.y, b.y),
            z: Interval::hull(a.z, b.z),
        }
    }

    /// Every point of `other` is a point of `self`.
    pub open spec fn includes(self, other: AABB) -> bool {
        self.x.includes(other.x) && self.y.includes(other.y) && self.z.includes(other.z)
    }

    /// The slab of axis `n` as `ray` sees it, by the arithmetic of `T`.
    pub open spec fn slab_of<T: Hittable>(self, ray: Ray, n: int) -> Interval {
        T::slab_spec(self.side(n), ray.orig.component(n), ray.dir.component(n))
    }

    /// What the box leaves of the window `w` along `ray`.
    pub open spec fn left_of<T: Hittable>(self, ray: Ray, w: Interval) -> Interval {
        clipped(self.slab_of::<T>(ray, 0), self.slab_of::<T>(ray, 1), self.slab_of::<T>(ray, 2), w)
    }

    /// Whether `ray` passes through the box somewhere within the window `w`.
    pub open spec fn pierced_by<T: Hittable>(self, ray: Ray, w: Interval) -> bool {
        pierced(self.slab_of::<T>(ray, 0), self.slab_of::<T>(ray, 1), self.slab_of::<T>(ray, 2), w)
    }

    pub fn new(a: &Point3, b: &Point3) -> (r: Self)
        ensures
            r == Self::spanning(*a, *b),
    {
        AABB {
            x: Interval { min: min(a.x, b.x), max: max(a.x, b.x) },
            y: Interval { min: min(a.y, b.y), max: max(a.y, b.y) },
            z: Interval { min: min(a.z, b.z), max: max(a.z, b.z) },
        }
    }

    /// Merges two boxes into the smallest one that includes both.
    pub fn merge(a: &Self, b: &Self) -> (r: Self)
        ensures
            r == Self::hull(*a, *b),
    {
        AABB {
            x: Interval::merge(a.axis(0), b.axis(0)),
            y: Interval::merge(a.axis(1), b.axis(1)),
            z: Interval::merge(a.axis(2), b.axis(2)),
        }
    }

    pub fn axis(&self, n: u32) -> (r: &Interval)
        ensures
            *r == self.side(n as int),
    {
        match n {
            1 => &self.y,
            2 => &self.z,
            _ => &self.x,
        }
    }

    /// The slab test. The window comes by value: a miss leaves the caller's
    /// own window as it was.
    pub fn hit<T: Hittable>(&self, ray: &Ray, ray_t: Interval) -> (r: bool)
        ensures
            r == self.pierced_by::<T>(*ray, ray_t),
    {
        let mut ray_t = ray_t;
        let sx = T::slab(self.axis(0), ray.orig.x(), ray.dir.x());
        if !Self::hit_helper(&sx, &mut ray_t) {
            return false;
        }
        let sy = T::slab(self.axis(1), ray.orig.y(), ray.dir.y());
        if !Self::hit_helper(&sy, &mut ray_t) {
            return false;
        }
        let sz = T::slab(self.axis(2), ray.orig.z(), ray.dir.z());
        Self::hit_helper(&sz, &mut ray_t)
    }

    /// Cuts the window down to one slab and says whether anything is left.
    pub fn hit_helper(slab: &Interval, ray_t: &mut Interval) -> (r: bool)
        ensures
            *final(ray_t) == narrowed(*old(ray_t), *slab),
            r == (final(ray_t).min < final(ray_t).max),
    {
        if slab.min > ray_t.min {
            ray_t.min = slab.min;
        }
        if slab.max < ray_t.max {
            ray_t.max = slab.max;
        }
        if ray_t.max <= ray_t.min {
            return false;
        }
        true
    }

    /// The eight corners of the box: x varies slowest and z fastest, each
    /// from its lower to its upper end.
    pub open spec fn corner(self, n: int) -> Point3 {
        Vec3 {
            x: if n / 4 % 2 == 1 { self.x.max } else { self.x.min },
            y: if n / 2 % 2 == 1 { self.y.max } else { self.y.min },
            z: if n % 2 == 1 { self.z.max } else { self.z.min },
        }
    }

    /// The eight corners of the box.
    pub fn corners(&self) -> (r: Vec<Point3>)
        ensures
            r@.len() == 8,
            forall|n: int| 0 <= n < 8 ==> r@[n] == #[trigger] self.corner(n),
    {
        let mut r: Vec<Point3> = Vec::new();
        let mut n: u32 = 0;
        while n < 8
            invariant
                n <= 8,
                r@.len() == n,
                forall|m: int| 0 <= m < n ==> r@[m] == #[trigger] self.corner(m),
            decreases 8 - n,
        {
            let p = Vec3 {
                x: if n / 4 % 2 == 1 { self.x.max } else { self.x.min },
                y: if n / 2 % 2 == 1 { self.y.max } else { self.y.min },
                z: if n % 2 == 1 { self.z.max } else { self.z.min },
            };
            r.push(p);
            n += 1;
        }
        r
    }

    /// The smallest box that holds the first `n` of `points`; with no point
    /// to hold, the empty box.
    pub open spec fn hull_of(points: Seq<Point3>, n: int) -> AABB
        decreases n,
    {
        if n <= 0 {
            AABB {
                x: Interval { min: crate::scalar::INFINITY, max: crate::scalar::NEG_INFINITY },
                y: Interval { min: crate::scalar::INFINITY, max: crate::scalar::NEG_INFINITY },
                z: Interval { min: crate::scalar::INFINITY, max: crate::scalar::NEG_INFINITY },
            }
        } else {
            Self::hull(Self::hull_of(points, n - 1), Self::spanning(points[n - 1], points[n - 1]))
        }
    }

    /// The axis-aligned hull of a set of points.
    pub fn enclosing(points: &Vec<Point3>) -> (r: Self)
        ensures
            r == Self::hull_of(points@, points@.len() as int),
    {
        let mut r = AABB::default();
        let mut i: usize = 0;
        while i < points.len()
            invariant
                i <= points@.len(),
                r == Self::hull_of(points@, i as int),
            decreases points@.len() - i,
        {
            let p = points[i];
            r = AABB::merge(&r, &AABB::new(&p, &p));
            i += 1;
        }
        r
    }
}

impl Default for AABB {
    /// The box that holds nothing.
    fn default() -> (r: Self)
        ensures
            r == AABB::hull_of(Seq::empty(), 0),
    {
        AABB { x: Interval::empty(), y: Interval::empty(), z: Interval::empty() }
    }
}

/// The slab test is monotone in the window: a box that a ray pierces within
/// a window is pierced within every window that includes what the box
/// leaves of the first.
pub proof fn lemma_hit_monotone<T: Hittable>(b: AABB, ray: Ray, w: Interval, wider: Interval)
    requires
        b.pierced_by::<T>(ray, w),
        wider.includes(b.left_of::<T>(ray, w)),
    ensures
        b.pierced_by::<T>(ray, wider),
{
}

/// What a box leaves of a window is part of the window, so that a ray which
/// pierces the box within a window pierces it within every wider one.
pub proof fn lemma_left_within<T: Hittable>(b: AABB, ray: Ray, w: Interval)
    ensures
        w.includes(b.left_of::<T>(ray, w)),
{
}

/// The slab test is monotone in the slabs: wider slabs let through whatever
/// narrower ones do.
pub proof fn lemma_hit_monotone_in_slabs(
    sx: Interval,
    sy: Interval,
    sz: Interval,
    wx: Interval,
    wy: Interval,
    wz: Interval,
    w: Interval,
)
    requires
        pierced(sx, sy, sz, w),
        wx.includes(sx),
        wy.includes(sy),
        wz.includes(sz),
    ensures
        pierced(wx, wy, wz, w),
{
}

} // verus!
