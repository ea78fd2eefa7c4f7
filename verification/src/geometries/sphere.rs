//! Ray-sphere intersection by the reduced-discriminant quadratic.

use vstd::prelude::*;

use crate::fixed::{fadd, fsub, fmul, fdiv, fsqrt, add_fp, sub_fp, mul_fp, div_fp, sqrt_fp};
use crate::hittable::{HitRecord, spec_hit_record};
use crate::interval::{Interval, spec_surrounds};
use crate::materials::Material;
use crate::ray::{Ray, spec_ray_at};
use crate::vec::{Vec3, vsub, vdot, vlensq, vdivs};

verus! {

#[derive(Clone, Copy, Debug, PartialEq, Eq, Structural)]
pub struct Sphere {
    pub center: Vec3,
    pub radius: i64,
    pub material: Material,
}

impl Sphere {
    pub fn new(center: Vec3, radius: i64, material: Material) -> (r: Self)
        ensures
            r == (Sphere { center, radius, material }),
    {
        Sphere { center, radius, material }
    }

    /// Solve `|ray.at(t) - center|^2 = radius^2` in the reduced form
    /// `h = dir . oc`, `a = |dir|^2`, `c = |oc|^2 - r^2`,
    /// `discriminant = h^2 - a c`, trying the smaller root first and the
    /// larger one when the smaller falls outside the window. A direction
    /// whose squared length truncates to zero yields no hit, as the
    /// degenerate quadratic has no root.
    pub fn hit(&self, ray: &Ray, range: Interval) -> (r: Option<HitRecord>)
        ensures
            r == spec_sphere_hit(*self, *ray, range),
    {
        proof {
            reveal(spec_sphere_hit);
        }
        let oc = self.center.sub(ray.orig);
        let a = ray.dir.length_squared();
        let h = ray.dir.dot(oc);
        let c = sub_fp(oc.length_squared(), mul_fp(self.radius, self.radius));
        let discriminant = sub_fp(mul_fp(h, h), mul_fp(a, c));
        if discriminant < 0 || a == 0 {
            return None;
        }
        let sqrtd = sqrt_fp(discriminant);
        let mut root = div_fp(sub_fp(h, sqrtd), a);
        if !range.surrounds(root) {
            root = div_fp(add_fp(h, sqrtd), a);
            if !range.surrounds(root) {
                return None;
            }
        }
        let p = ray.at(root);
        let normal = p.sub(self.center).div_scalar(self.radius);
        Some(HitRecord::new(p, normal, root, ray, self.material))
    }
}

/// What `Sphere::hit` returns: the nearer admissible root of the reduced
/// quadratic, or the farther one, or no hit. Opaque: proofs about the
/// scene fold need only that this is some option; those about the formula
/// reveal it.
#[verifier::opaque]
pub open spec fn spec_sphere_hit(s: Sphere, ray: Ray, range: Interval) -> Option<HitRecord> {
    let oc = vsub(s.center, ray.orig);
    let a = vlensq(ray.dir);
    let h = vdot(ray.dir, oc);
    let c = fsub(vlensq(oc), fmul(s.radius as int, s.radius as int));
    let discriminant = fsub(fmul(h, h), fmul(a, c));
    if discriminant < 0 || a == 0 {
        None
    } else {
        let sqrtd = fsqrt(discriminant);
        let root1 = fdiv(fsub(h, sqrtd), a);
        let root2 = fdiv(fadd(h, sqrtd), a);
        if spec_surrounds(range, root1) {
            Some(spec_sphere_record(s, ray, root1 as i64))
        } else if spec_surrounds(range, root2) {
            Some(spec_sphere_record(s, ray, root2 as i64))
        } else {
            None
        }
    }
}

/// The record a sphere reports for the accepted root: the hit point and
/// the outward normal `(p - center) / radius`.
pub open spec fn spec_sphere_record(s: Sphere, ray: Ray, root: i64) -> HitRecord {
    let p = spec_ray_at(ray, root as int);
    spec_hit_record(p, vdivs(vsub(p, s.center), s.radius as int), root, ray, s.material)
}

} // verus!
