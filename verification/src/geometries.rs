//! Concrete surfaces: closed-form ray intersections for spheres and planes.

pub mod plane;
pub mod sphere;
