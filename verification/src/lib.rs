//! A stochastic ray tracer over exact fixed-point arithmetic.
//!
//! Scene geometry, materials and the camera all compute in a Q47.16
//! fixed-point scale on `i64`: one unit of the scale is `fixed::ONE`.
//! Overflowing results saturate at the `i64` bounds, the fixed-point
//! analogue of a float running off to infinity. Every arithmetic step is
//! mirrored by a spec function, so each rendering function carries an
//! exact contract.

pub mod camera;
pub mod fixed;
pub mod geometries;
pub mod hittable;
pub mod interval;
pub mod materials;
pub mod ray;
pub mod rng;
pub mod text;
pub mod vec;
