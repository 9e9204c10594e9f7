//! A recursive, stochastic ray tracer over fixed-point scalars.
//!
//! Scene geometry, materials, the camera and the path integrator all work
//! on `i64` scalars that stand for real values scaled by `fixed::SCALE`.
//! Every arithmetic step is stated exactly (truncating division, saturation
//! at the `i64` range), so each rendering function carries a contract that
//! pins its result down to the bit.

pub mod camera;
pub mod fixed;
pub mod hittable;
pub mod material;
pub mod objects;
pub mod math;
pub mod ray;
pub mod render;
pub mod vec3;
