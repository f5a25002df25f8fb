//! Triples of scalars: vectors, points and colours.

use vstd::prelude::*;
use crate::scalar::{Scalar, is_number, negated, neg};

verus! {

/// Three scalars. The same shape serves as a direction, as a position
/// ([`Point3`]) and as linear radiance per channel ([`Color`]).
#[derive(Clone, Copy, Debug, PartialEq, Eq, Structural)]
pub struct Vec3 {
    pub x: Scalar,
    pub y: Scalar,
    pub z: Scalar,
}

pub type Point3 = Vec3;

pub type Color = Vec3;

/// The rank of `1e-8`, below which a component counts as vanished.
pub const NEAR_ZERO: Scalar = 0x3e45_798e_e230_8c3a;

impl Vec3 {
    /// All three components are numbers.
    pub open spec fn is_numeric(self) -> bool {
        is_number(self.x) && is_number(self.y) && is_number(self.z)
    }

    /// The component along axis `n`: 1 is y, 2 is z, anything else is x.
    pub open spec fn component(self, n: int) -> Scalar {
        if n == 1 {
            self.y
        } else if n == 2 {
            self.z
        } else {
            self.x
        }
    }

    /// The vector with each component negated.
    pub open spec fn reversed(self) -> Vec3 {
        Vec3 {
            x: negated(self.x as int) as Scalar,
            y: negated(self.y as int) as Scalar,
            z: negated(self.z as int) as Scalar,
        }
    }

    /// Every component lies strictly between `-1e-8` and `1e-8`.
    pub open spec fn is_near_zero(self) -> bool {
        &&& negated(NEAR_ZERO as int) < self.x < NEAR_ZERO
        &&& negated(NEAR_ZERO as int) < self.y < NEAR_ZERO
        &&& negated(NEAR_ZERO as int) < self.z < NEAR_ZERO
    }

    pub fn new(x: Scalar, y: Scalar, z: Scalar) -> (r: Self)
        ensures
            r == (Vec3 { x, y, z }),
    {
        Vec3 { x, y, z }
    }

    pub fn x(&self) -> (r: Scalar)
        ensures
            r == self.x,
    {
        self.x
    }

    pub fn y(&self) -> (r: Scalar)
        ensures
            r == self.y,
    {
        self.y
    }

    pub fn z(&self) -> (r: Scalar)
        ensures
            r == self.z,
    {
        self.z
    }

    /// The component along axis `n`.
    pub fn axis(&self, n: u32) -> (r: Scalar)
        ensures
            r == self.component(n as int),
    {
        match n {
            1 => self.y,
            2 => self.z,
            _ => self.x,
        }
    }

    /// The opposite vector.
    pub fn reverse(&self) -> (r: Self)
        ensures
            r == self.reversed(),
            self.is_numeric() ==> r.is_numeric(),
    {
        Vec3 { x: neg(self.x), y: neg(self.y), z: neg(self.z) }
    }

    /// Whether the vector has vanished on every axis.
    pub fn near_zero(&self) -> (r: bool)
        ensures
            r == self.is_near_zero(),
    {
        let lo: Scalar = -NEAR_ZERO - 1;
        lo < self.x && self.x < NEAR_ZERO && lo < self.y && self.y < NEAR_ZERO && lo < self.z
            && self.z < NEAR_ZERO
    }
}

impl Default for Vec3 {
    /// The zero vector.
    fn default() -> (r: Self)
        ensures
            r == (Vec3 { x: 0, y: 0, z: 0 }),
    {
        Vec3 { x: 0, y: 0, z: 0 }
    }
}

} // verus!
