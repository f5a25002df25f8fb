//! Rays.

use vstd::prelude::*;
use crate::scalar::Scalar;
use crate::vec3::{Point3, Vec3};

verus! {

/// A ray: where it starts, which way it goes, and the moment of the shutter
/// interval at which it was cast. The direction need not have unit length.
#[derive(Clone, Copy, Debug, PartialEq, Eq, Structural)]
pub struct Ray {
    pub orig: Point3,
    pub dir: Vec3,
    pub tm: Scalar,
}

impl Ray {
    pub fn new(orig: Point3, dir: Vec3, tm: Scalar) -> (r: Self)
        ensures
            r == (Ray { orig, dir, tm }),
    {
        Ray { orig, dir, tm }
    }
}

impl Default for Ray {
    /// The ray that starts at the origin at time zero and goes nowhere.
    fn default() -> (r: Self)
        ensures
            r == (Ray {
                orig: Vec3 { x: 0, y: 0, z: 0 },
                dir: Vec3 { x: 0, y: 0, z: 0 },
                tm: 0,
            }),
    {
        Ray { orig: Vec3 { x: 0, y: 0, z: 0 }, dir: Vec3 { x: 0, y: 0, z: 0 }, tm: 0 }
    }
}

} // verus!
