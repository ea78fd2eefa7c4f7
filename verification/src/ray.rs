//! A ray: origin plus direction, with the parametric point-at-t evaluator.

use vstd::prelude::*;

use crate::vec::{Vec3, vadd, vscale};

verus! {

#[derive(Clone, Copy, Debug, PartialEq, Eq, Structural)]
pub struct Ray {
    pub orig: Vec3,
    pub dir: Vec3,
}

/// The point `orig + dir * t` that the ray reaches at parameter `t`.
pub open spec fn spec_ray_at(r: Ray, t: int) -> Vec3 {
    vadd(r.orig, vscale(r.dir, t))
}

impl Ray {
    pub fn new(orig: Vec3, dir: Vec3) -> (r: Self)
        ensures
            r == (Ray { orig, dir }),
    {
        Ray { orig, dir }
    }

    pub fn at(&self, t: i64) -> (r: Vec3)
        ensures
            r == spec_ray_at(*self, t as int),
    {
        self.orig.add(self.dir.scale(t))
    }
}

} // verus!
