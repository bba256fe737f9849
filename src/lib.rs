//! A Monte-Carlo ray tracer over spheres.
//!
//! Camera rays are cast through each pixel, intersected with the scene, and
//! scattered by the materials they meet until they escape to the sky, are
//! absorbed, or reach the depth bound. Real numbers are 16.16 fixed-point
//! integers (see `fixed`), so that every step is proved: the geometry, the
//! nearest-hit search, scattering, ray generation, the radiance integrator and
//! the 8-bit color encoding.

pub mod fixed;
pub mod vec3;
pub mod util;
pub mod ray;
pub mod interval;
pub mod hit;
pub mod material;
pub mod sphere;
pub mod hittable_list;
pub mod color;
pub mod camera;
