//! What materials decide.
//!
//! Where a scattered ray goes is sampled and computed by the caller. What a
//! material makes of it is here: which direction stands when the sampled
//! one has vanished, whether glass reflects or refracts, what the ray
//! carries on, and that a light scatters nothing.

use vstd::prelude::*;
use crate::hittables::HitRecord;
use crate::ray::Ray;
use crate::scalar::{Scalar, ONE};
use crate::texture::SolidColor;
use crate::traits::{ScatterInfo, Texture};
use crate::vec3::{Color, Point3, Vec3};

verus! {

/// A diffuse surface.
pub struct Lambertian<T: Texture> {
    pub albedo: T,
}

/// A reflective surface, the rougher the larger `fuzz` is.
pub struct Metal<T: Texture> {
    pub albedo: T,
    pub fuzz: Scalar,
}

/// A clear surface with the refractive index `ir`.
#[derive(Clone, Copy, Debug, PartialEq, Eq, Structural)]
pub struct Dielectric {
    pub ir: Scalar,
}

/// A surface that gives light.
pub struct DiffuseLight<T: Texture> {
    pub emit: T,
}

/// What scatters inside a medium, in all directions alike.
pub struct Isotropic<T: Texture> {
    pub albedo: T,
}

/// The ray scattered at `rec` in `direction`, at the moment of `ray_in`.
pub open spec fn onward(ray_in: Ray, rec: HitRecord, direction: Vec3) -> Ray {
    Ray { orig: rec.point, dir: direction, tm: ray_in.tm }
}

/// A channel lies between zero and one.
pub open spec fn unit(s: Scalar) -> bool {
    0 <= s <= ONE
}

/// All channels of a colour lie between zero and one.
pub open spec fn unit_color(c: Color) -> bool {
    unit(c.x) && unit(c.y) && unit(c.z)
}

impl Lambertian<SolidColor> {
    pub fn new_from_color(color: Color) -> (r: Self)
        ensures
            r.albedo@ == color,
    {
        Lambertian { albedo: SolidColor::new(color) }
    }
}

impl<T: Texture> Lambertian<T> {
    pub fn new(texture: T) -> (r: Self)
        ensures
            r.albedo == texture,
    {
        Lambertian { albedo: texture }
    }

    /// The direction in which the surface scatters: the candidate, which is
    /// the normal plus a random unit vector, unless it has vanished, and
    /// then the normal.
    pub open spec fn direction(rec: HitRecord, candidate: Vec3) -> Vec3 {
        if candidate.is_near_zero() {
            rec.normal
        } else {
            candidate
        }
    }

    /// Scatters, always: the ray goes on from the point of the hit, and
    /// carries the colour of the surface there.
    pub fn scatter(&self, ray_in: &Ray, rec: &HitRecord, candidate: Vec3) -> (r: Option<ScatterInfo>)
        ensures
            r == Some(
                ScatterInfo {
                    attenuation: self.albedo.value_spec(rec.u, rec.v, rec.point),
                    ray_scattered: onward(*ray_in, *rec, Self::direction(*rec, candidate)),
                },
            ),
    {
        let mut scatter_direction = candidate;
        if scatter_direction.near_zero() {
            scatter_direction = rec.normal;
        }
        let ray_scattered = Ray { orig: rec.point, dir: scatter_direction, tm: ray_in.tm };
        let attenuation = self.albedo.value(rec.u, rec.v, &rec.point);
        Some(ScatterInfo { attenuation, ray_scattered })
    }
}

impl Metal<SolidColor> {
    pub fn new_from_color(color: Color, fuzz: Scalar) -> (r: Self)
        ensures
            r.albedo@ == color,
            r.fuzz == fuzz,
    {
        Metal { albedo: SolidColor::new(color), fuzz }
    }
}

impl<T: Texture> Metal<T> {
    pub fn new(texture: T, fuzz: Scalar) -> (r: Self)
        ensures
            r.albedo == texture,
            r.fuzz == fuzz,
    {
        Metal { albedo: texture, fuzz }
    }

    /// Scatters, always, in `direction`: the mirror image of the incoming
    /// direction, plus `fuzz` times a random unit vector. A direction that
    /// points below the surface is let through.
    pub fn scatter(&self, ray_in: &Ray, rec: &HitRecord, direction: Vec3) -> (r: Option<ScatterInfo>)
        ensures
            r == Some(
                ScatterInfo {
                    attenuation: self.albedo.value_spec(rec.u, rec.v, rec.point),
                    ray_scattered: onward(*ray_in, *rec, direction),
                },
            ),
    {
        let ray_scattered = Ray { orig: rec.point, dir: direction, tm: ray_in.tm };
        let attenuation = self.albedo.value(rec.u, rec.v, &rec.point);
        Some(ScatterInfo { attenuation, ray_scattered })
    }
}

impl Dielectric {
    pub fn new(ir: Scalar) -> (r: Self)
        ensures
            r.ir == ir,
    {
        Dielectric { ir }
    }

    /// The ratio of the refractive indices that the ray crosses: `inverse`,
    /// which is one over the index, where the ray enters the surface, and
    /// the index where it leaves.
    pub fn refraction_ratio(&self, rec: &HitRecord, inverse: Scalar) -> (r: Scalar)
        ensures
            r == (if rec.front_face {
                inverse
            } else {
                self.ir
            }),
    {
        if rec.front_face {
            inverse
        } else {
            self.ir
        }
    }

    /// Glass reflects where it cannot refract, which is where the ratio of
    /// the indices times the sine of the angle of incidence exceeds one;
    /// elsewhere it reflects with the probability that the reflectance
    /// gives, which is where the reflectance exceeds the number drawn.
    pub open spec fn reflects(ratio_sine: Scalar, reflectance: Scalar, sample: Scalar) -> bool {
        ratio_sine > ONE || reflectance > sample
    }

    /// Scatters, always, and carries everything on: the ray goes on as
    /// `reflected` where the glass reflects, and as `refracted` elsewhere.
    pub fn scatter(
        &self,
        ray_in: &Ray,
        rec: &HitRecord,
        ratio_sine: Scalar,
        reflectance: Scalar,
        sample: Scalar,
        reflected: Vec3,
        refracted: Vec3,
    ) -> (r: Option<ScatterInfo>)
        ensures
            r == Some(
                ScatterInfo {
                    attenuation: Vec3 { x: ONE, y: ONE, z: ONE },
                    ray_scattered: onward(
                        *ray_in,
                        *rec,
                        if Self::reflects(ratio_sine, reflectance, sample) {
                            reflected
                        } else {
                            refracted
                        },
                    ),
                },
            ),
    {
        let can_reflect = ratio_sine > ONE;
        let direction = if can_reflect || reflectance > sample {
            reflected
        } else {
            refracted
        };
        let ray_scattered = Ray { orig: rec.point, dir: direction, tm: ray_in.tm };
        let attenuation = Vec3 { x: ONE, y: ONE, z: ONE };
        Some(ScatterInfo { attenuation, ray_scattered })
    }
}

impl DiffuseLight<SolidColor> {
    pub fn new_from_color(color: Color) -> (r: Self)
        ensures
            r.emit@ == color,
    {
        DiffuseLight { emit: SolidColor::new(color) }
    }
}

impl<T: Texture> DiffuseLight<T> {
    pub fn new(texture: T) -> (r: Self)
        ensures
            r.emit == texture,
    {
        DiffuseLight { emit: texture }
    }

    /// The light that the surface gives off at a point.
    pub fn emitted(&self, u: Scalar, v: Scalar, p: &Point3) -> (c: Color)
        ensures
            c == self.emit.value_spec(u, v, *p),
    {
        self.emit.value(u, v, p)
    }

    /// A light scatters nothing.
    pub fn scatter(&self, ray_in: &Ray, rec: &HitRecord) -> (r: Option<ScatterInfo>)
        ensures
            r is None,
    {
        None
    }
}

impl Isotropic<SolidColor> {
    pub fn new_from_color(c: Color) -> (r: Self)
        ensures
            r.albedo@ == c,
    {
        Isotropic { albedo: SolidColor::new(c) }
    }
}

impl<T: Texture> Isotropic<T> {
    pub fn new(a: T) -> (r: Self)
        ensures
            r.albedo == a,
    {
        Isotropic { albedo: a }
    }

    /// Scatters, always, in `direction`, a random unit vector.
    pub fn scatter(&self, ray_in: &Ray, rec: &HitRecord, direction: Vec3) -> (r: Option<ScatterInfo>)
        ensures
            r == Some(
                ScatterInfo {
                    attenuation: self.albedo.value_spec(rec.u, rec.v, rec.point),
                    ray_scattered: onward(*ray_in, *rec, direction),
                },
            ),
    {
        let ray_scattered = Ray::new(rec.point, direction, ray_in.tm);
        let attenuation = self.albedo.value(rec.u, rec.v, &rec.point);
        Some(ScatterInfo { attenuation, ray_scattered })
    }
}

/// The light that a material gives off which gives off none.
pub fn no_emission() -> (c: Color)
    ensures
        c == (Vec3 { x: 0, y: 0, z: 0 }),
{
    Vec3 { x: 0, y: 0, z: 0 }
}

/// A diffuse surface of one colour whose channels lie between zero and one
/// hands on no more than it receives: the channels of its attenuation lie
/// between zero and one.
pub proof fn lemma_lambertian_energy(m: Lambertian<SolidColor>, rec: HitRecord)
    requires
        unit_color(m.albedo@),
    ensures
        unit_color(m.albedo.value_spec(rec.u, rec.v, rec.point)),
{
}

} // verus!
