//! A verified path-tracing kernel.
//!
//! The renderer casts rays through a thin-lens camera into a small animated
//! scene of spheres, scatters them off diffuse, metallic and dielectric
//! surfaces, and averages several jittered samples per pixel.  All arithmetic
//! is fixed point (16 fractional bits held in `i64`), so every function of the
//! kernel carries an exact functional contract and the geometric and material
//! laws are proved rather than sampled.

pub mod camera;
pub mod fx;
pub mod laws;
pub mod material;
pub mod ray;
pub mod render;
pub mod rng;
pub mod sphere;
pub mod vec3;
