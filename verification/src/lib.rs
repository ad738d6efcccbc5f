//! A Monte-Carlo path tracer over exact fixed-point arithmetic.
//!
//! Scene geometry, material scattering, the recursive integrator and the
//! camera all work on scaled-integer scalars, so every step of the render has
//! an exact integer specification that is verified.

pub mod fx;
pub mod vec3;
pub mod ray;
pub mod hit;
pub mod sphere;
pub mod material;
pub mod camera;
pub mod sampling;
pub mod render;
