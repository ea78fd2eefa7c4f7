//! Ray-plane intersection.

use vstd::prelude::*;

use crate::fixed::{fdiv, div_fp};
use crate::hittable::{HitRecord, spec_hit_record};
use crate::interval::{Interval, spec_surrounds};
use crate::materials::Material;
use crate::ray::{Ray, spec_ray_at};
use crate::vec::{Vec3, vsub, vdot, vunit};

verus! {

#[derive(Clone, Copy, Debug, PartialEq, Eq, Structural)]
pub struct Plane {
    pub origin: Vec3,
    pub normal: Vec3,
    pub material: Material,
}

impl Plane {
    /// The stored normal is the normalized form of the one given.
    pub fn new(origin: Vec3, normal: Vec3, material: Material) -> (r: Self)
        ensures
            r == (Plane { origin, normal: vunit(normal), material }),
    {
        Plane { origin, normal: normal.unit_vector(), material }
    }

    /// Intersect by `t = ((origin - ray.orig) . normal) / (dir . normal)`.
    /// A denominator of zero is a ray parallel to the plane (at this
    /// scale's resolution, the near-parallel epsilon guard admits only
    /// zero itself) and yields no hit.
    pub fn hit(&self, ray: &Ray, range: Interval) -> (r: Option<HitRecord>)
        ensures
            r == spec_plane_hit(*self, *ray, range),
    {
        let denom = ray.dir.dot(self.normal);
        if denom == 0 {
            return None;
        }
        let t = div_fp(self.origin.sub(ray.orig).dot(self.normal), denom);
        if !range.surrounds(t) {
            return None;
        }
        let p = ray.at(t);
        Some(HitRecord::new(p, self.normal, t, ray, self.material))
    }
}

/// A ray parallel to the plane (its direction orthogonal to the normal)
/// never hits it, whatever its origin and whatever the window.
pub proof fn lemma_parallel_ray_misses(p: Plane, ray: Ray, range: Interval)
    requires
        vdot(ray.dir, p.normal) == 0,
    ensures
        spec_plane_hit(p, ray, range) is None,
{
}

/// What `Plane::hit` returns.
pub open spec fn spec_plane_hit(p: Plane, ray: Ray, range: Interval) -> Option<HitRecord> {
    let denom = vdot(ray.dir, p.normal);
    if denom == 0 {
        None
    } else {
        let t = fdiv(vdot(vsub(p.origin, ray.orig), p.normal), denom);
        if spec_surrounds(range, t) {
            Some(spec_hit_record(spec_ray_at(ray, t), p.normal, t as i64, ray, p.material))
        } else {
            None
        }
    }
}

} // verus!
