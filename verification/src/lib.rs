//! The discrete kernel of a path tracer.
//!
//! Every real quantity crosses this library as a [`scalar::Scalar`]: the rank
//! of an IEEE-754 double in the order of the reals. The kernel compares,
//! selects and stores such ranks; it never does arithmetic on them. What it
//! decides from them -- which window of a ray survives a box, which of two
//! children of a bounding-volume hierarchy is nearer, which root of a sphere
//! counts, which lattice vectors a noise sample blends, which bytes make up a
//! pixel of the output -- is stated in contracts and proved.

pub mod aabb;
pub mod bvh;
pub mod camera;
pub mod color;
pub mod constant_medium;
pub mod hittables;
pub mod interval;
pub mod material;
pub mod perlin;
pub mod quad;
pub mod ray;
mod rearrange;
pub mod scalar;
pub mod sphere;
pub mod texture;
pub mod traits;
pub mod utils;
pub mod vec3;
