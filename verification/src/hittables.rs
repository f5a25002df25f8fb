//! Hit records and the list of hittables.

use vstd::prelude::*;
use crate::aabb::AABB;
use crate::interval::Interval;
use crate::ray::Ray;
use crate::scalar::{Scalar, negated};
use crate::traits::{Hittable, upper_after};
use crate::vec3::{Point3, Vec3};

verus! {

/// What is known of an intersection: where it is, the unit normal that
/// opposes the incoming ray, the material of the surface (a handle into the
/// scene's table of materials), the ray parameter, the texture coordinates,
/// and whether the ray came from outside.
#[derive(Clone, Copy, Debug, PartialEq, Eq, Structural)]
pub struct HitRecord {
    pub point: Point3,
    pub normal: Vec3,
    pub material: usize,
    pub t: Scalar,
    pub u: Scalar,
    pub v: Scalar,
    pub front_face: bool,
}

impl HitRecord {
    /// A record with no normal yet.
    pub fn new(point: Point3, material: usize, t: Scalar, u: Scalar, v: Scalar) -> (r: Self)
        ensures
            r == (HitRecord {
                point,
                normal: Vec3 { x: 0, y: 0, z: 0 },
                material,
                t,
                u,
                v,
                front_face: false,
            }),
    {
        HitRecord {
            point,
            normal: Vec3 { x: 0, y: 0, z: 0 },
            material,
            t,
            u,
            v,
            front_face: false,
        }
    }

    /// Orients the normal against the ray. `facing` is the dot product of
    /// the ray's direction with `outward_normal`, which has unit length: a
    /// negative one means that the ray comes from outside, and the outward
    /// normal is kept; otherwise the ray comes from inside, and the normal
    /// stored is the inward one.
    pub fn set_face_normal(&mut self, facing: Scalar, outward_normal: &Vec3)
        ensures
            final(self).front_face == (facing < 0),
            final(self).normal == (if facing < 0 {
                *outward_normal
            } else {
                outward_normal.reversed()
            }),
            final(self).point == old(self).point,
            final(self).material == old(self).material,
            final(self).t == old(self).t,
            final(self).u == old(self).u,
            final(self).v == old(self).v,
    {
        self.front_face = facing < 0;
        self.normal = if self.front_face {
            *outward_normal
        } else {
            outward_normal.reverse()
        };
    }
}

/// A point at which a ray crosses a surface, as arithmetic finds it: the
/// ray parameter, the point, the unit normal that points out of the
/// surface there, the dot product of the ray's direction with that normal,
/// and the texture coordinates.
#[derive(Clone, Copy, Debug, PartialEq, Eq, Structural)]
pub struct Crossing {
    pub t: Scalar,
    pub point: Point3,
    pub outward_normal: Vec3,
    pub facing: Scalar,
    pub u: Scalar,
    pub v: Scalar,
}

impl Crossing {
    /// The record of a hit at this crossing on a surface of the given
    /// material: the ray comes from outside where `facing` is negative, and
    /// the normal recorded is the outward one there and the inward one
    /// elsewhere.
    pub open spec fn recorded(self, material: usize) -> HitRecord {
        HitRecord {
            point: self.point,
            normal: if self.facing < 0 {
                self.outward_normal
            } else {
                self.outward_normal.reversed()
            },
            material,
            t: self.t,
            u: self.u,
            v: self.v,
            front_face: self.facing < 0,
        }
    }

    /// Records a hit at this crossing.
    pub fn record(&self, material: usize) -> (rec: HitRecord)
        ensures
            rec == self.recorded(material),
    {
        let mut rec = HitRecord::new(self.point, material, self.t, self.u, self.v);
        rec.set_face_normal(self.facing, &self.outward_normal);
        rec
    }
}

/// The dot product of a ray's direction with the normal that
/// `set_face_normal` stores, given that turning a vector round negates its
/// dot products: `facing` itself where the outward normal is kept, and its
/// negation where the normal is turned.
pub open spec fn opposing(facing: Scalar) -> int {
    if facing < 0 {
        facing as int
    } else {
        negated(facing as int)
    }
}

/// The stored normal never points along the ray: the dot product of the
/// two is negative or zero.
pub proof fn lemma_normal_opposes(facing: Scalar)
    ensures
        opposing(facing) <= 0,
{
}

/// The hit that stands after the first `n` of `objects` have been asked in
/// turn, each within the window that the hits before it have left.
pub open spec fn nearest_of<T: Hittable>(
    objects: Seq<T>,
    n: int,
    ray: Ray,
    lo: Scalar,
    hi: Scalar,
) -> Option<HitRecord>
    decreases n,
{
    if n <= 0 {
        None
    } else {
        let before = nearest_of(objects, n - 1, ray, lo, hi);
        match objects[n - 1].hit_spec(ray, lo, upper_after(before, hi)) {
            Some(rec) => Some(rec),
            None => before,
        }
    }
}

/// The box that the first `n` of `objects` fill together.
pub open spec fn bounds_of<T: Hittable>(objects: Seq<T>, n: int) -> AABB
    decreases n,
{
    if n <= 0 {
        AABB::hull_of(Seq::empty(), 0)
    } else {
        AABB::hull(bounds_of(objects, n - 1), objects[n - 1].bounding_box_spec())
    }
}

/// A list of hittables that is itself hittable.
pub struct Hittables<T: Hittable> {
    objects: Vec<T>,
    bbox: AABB,
}

impl<T: Hittable> Hittables<T> {
    /// The box is the one that the objects fill together.
    #[verifier::type_invariant]
    pub closed spec fn wf(self) -> bool {
        self.bbox == bounds_of(self.objects@, self.objects@.len() as int)
    }

    /// The objects of the list, in the order in which they were added.
    pub closed spec fn view(self) -> Seq<T> {
        self.objects@
    }

    /// The objects of the list.
    pub fn objects(&self) -> (r: &Vec<T>)
        ensures
            r@ == self@,
    {
        &self.objects
    }

    /// Gives the objects up.
    pub fn into_objects(self) -> (r: Vec<T>)
        ensures
            r@ == self@,
    {
        self.objects
    }

    /// The list without any object.
    pub fn empty() -> (r: Self)
        ensures
            r@ == Seq::<T>::empty(),
    {
        Hittables { objects: Vec::new(), bbox: AABB::default() }
    }

    /// The list of one object.
    pub fn new(hitable: T) -> (r: Self)
        ensures
            r@ == seq![hitable],
    {
        let mut s = Self::empty();
        s.add(hitable);
        s
    }

    /// Appends an object.
    pub fn add(&mut self, obj: T)
        ensures
            final(self)@ == old(self)@.push(obj),
    {
        let mut taken = Self::empty();
        std::mem::swap(self, &mut taken);
        proof {
            use_type_invariant(&taken);
        }
        let Hittables { objects, bbox } = taken;
        let ghost before = objects@;
        let merged = AABB::merge(&bbox, &obj.bounding_box());
        let mut objects = objects;
        objects.push(obj);
        proof {
            lemma_bounds_prefix(objects@, before, before.len() as int);
        }
        *self = Hittables { objects, bbox: merged };
    }
}

/// The box of a prefix depends on that prefix alone.
pub proof fn lemma_bounds_prefix<T: Hittable>(a: Seq<T>, b: Seq<T>, n: int)
    requires
        0 <= n <= a.len(),
        n <= b.len(),
        forall|i: int| 0 <= i < n ==> a[i] == b[i],
    ensures
        bounds_of(a, n) == bounds_of(b, n),
    decreases n,
{
    if n > 0 {
        lemma_bounds_prefix(a, b, n - 1);
    }
}

impl<T: Hittable> Hittable for Hittables<T> {
    open spec fn hit_spec(&self, ray: Ray, lo: Scalar, hi: Scalar) -> Option<HitRecord> {
        nearest_of(self@, self@.len() as int, ray, lo, hi)
    }

    open spec fn bounding_box_spec(&self) -> AABB {
        bounds_of(self@, self@.len() as int)
    }

    open spec fn slab_spec(bounds: Interval, origin: Scalar, direction: Scalar) -> Interval {
        T::slab_spec(bounds, origin, direction)
    }

    fn hit(&self, ray: &Ray, ray_t: &mut Interval) -> (res: Option<HitRecord>) {
        let mut hit_record: Option<HitRecord> = None;
        let ghost lo = ray_t.min;
        let ghost hi = ray_t.max;
        let mut i: usize = 0;
        while i < self.objects.len()
            invariant
                i <= self.objects@.len(),
                hit_record == nearest_of(self.objects@, i as int, *ray, lo, hi),
                hit_record matches Some(rec) ==> lo < rec.t < hi,
                ray_t.min == lo,
                ray_t.max == upper_after(hit_record, hi),
            decreases self.objects@.len() - i,
        {
            if let Some(tmp_hit_record) = self.objects[i].hit(ray, ray_t) {
                ray_t.max = tmp_hit_record.t;
                hit_record = Some(tmp_hit_record);
            }
            i += 1;
        }
        hit_record
    }

    fn bounding_box(&self) -> (r: AABB) {
        proof {
            use_type_invariant(self);
        }
        self.bbox
    }

    fn slab(bounds: &Interval, origin: Scalar, direction: Scalar) -> (r: Interval) {
        T::slab(bounds, origin, direction)
    }
}

} // verus!
