//! The material scattering protocol: a closed set of material variants,
//! each mapping an incoming ray and hit record to either an absorption
//! (`None`) or an attenuation and a scattered ray.
//!
//! Scattering is driven by random sampling, and takes the random draws as
//! arguments (`rnd_unit`, a sampled unit vector, and `coin`, a uniform
//! scalar in `[0, ONE)`): every variant's behaviour is then a total
//! function with an exact contract, and callers draw the samples.

use vstd::prelude::*;

use crate::fixed::{ONE, fadd, fsub, fmul, fdiv, fsqrt, add_fp, sub_fp, mul_fp, div_fp, sqrt_fp};
use crate::hittable::HitRecord;
use crate::ray::Ray;
use crate::fixed::{lemma_fmul_one, lemma_fmul_neg_one, lemma_fmul_zero};
use crate::vec::{
    Vec3, MODERATE, vadd, vneg, vscale, vdot, vunit, vnear_zero, vreflect, vrefract, vmoderate,
    axis_unit, lemma_vadd_zero, lemma_vscale_zero, lemma_reflect_axis,
};

verus! {

/// Diffuse: scatters about the surface normal, attenuated by its albedo.
#[derive(Clone, Copy, Debug, PartialEq, Eq, Structural)]
pub struct Lambertian {
    pub albedo: Vec3,
}

/// Specular: reflects, perturbed by `fuzz` times a random unit vector;
/// a perturbed ray ending up inside the surface is absorbed.
#[derive(Clone, Copy, Debug, PartialEq, Eq, Structural)]
pub struct Metal {
    pub albedo: Vec3,
    pub fuzz: i64,
}

/// Refractive: always scatters, choosing reflection or refraction by
/// Schlick's reflectance against a uniform draw.
#[derive(Clone, Copy, Debug, PartialEq, Eq, Structural)]
pub struct Dielectric {
    pub refractive_index: i64,
}

/// The closed set of materials a surface can carry.
#[derive(Clone, Copy, Debug, PartialEq, Eq, Structural)]
pub enum Material {
    Lambertian(Lambertian),
    Metal(Metal),
    Dielectric(Dielectric),
}

impl Lambertian {
    pub fn new(albedo: Vec3) -> (r: Self)
        ensures
            r == (Lambertian { albedo }),
    {
        Lambertian { albedo }
    }
}

impl Metal {
    /// The fuzz radius is clamped into `[0, 1]` at construction.
    pub fn new(albedo: Vec3, fuzz: i64) -> (r: Self)
        ensures
            r == (Metal {
                albedo,
                fuzz: if fuzz < 0 {
                    0
                } else if fuzz < ONE {
                    fuzz
                } else {
                    ONE
                },
            }),
    {
        Metal {
            albedo,
            fuzz: if fuzz < 0 {
                0
            } else if fuzz < ONE {
                fuzz
            } else {
                ONE
            },
        }
    }
}

impl Dielectric {
    pub fn new(refractive_index: i64) -> (r: Self)
        ensures
            r == (Dielectric { refractive_index }),
    {
        Dielectric { refractive_index }
    }
}

/// Schlick's approximation of the Fresnel reflectance:
/// `r0 + (1 - r0) (1 - cos)^5` with `r0 = ((1 - eta) / (1 + eta))^2`.
pub open spec fn spec_reflectance(cosine: int, ref_idx: int) -> int {
    let t = fdiv(fsub(ONE as int, ref_idx), fadd(ONE as int, ref_idx));
    let r0 = fmul(t, t);
    let u = fsub(ONE as int, cosine);
    let u2 = fmul(u, u);
    let u4 = fmul(u2, u2);
    let u5 = fmul(u4, u);
    fadd(r0, fmul(fsub(ONE as int, r0), u5))
}

/// What `Material::scatter` returns, for every material, incoming ray,
/// hit record and pair of random draws. Opaque: proofs about the shading
/// recursion need only the returned option; those about the scattering
/// formulas reveal it.
#[verifier::opaque]
pub open spec fn spec_scatter(
    m: Material,
    ray: Ray,
    rec: HitRecord,
    rnd_unit: Vec3,
    coin: int,
) -> Option<(Vec3, Ray)> {
    match m {
        Material::Lambertian(l) => {
            let d0 = vadd(rec.normal, rnd_unit);
            let d = if vnear_zero(d0) {
                rec.normal
            } else {
                d0
            };
            Some((l.albedo, Ray { orig: rec.p, dir: d }))
        },
        Material::Metal(mt) => {
            let d = vadd(vreflect(ray.dir, rec.normal), vscale(rnd_unit, mt.fuzz as int));
            if vdot(d, rec.normal) > 0 {
                Some((mt.albedo, Ray { orig: rec.p, dir: d }))
            } else {
                None
            }
        },
        Material::Dielectric(dl) => {
            let ratio = if rec.is_front_face {
                fdiv(ONE as int, dl.refractive_index as int)
            } else {
                dl.refractive_index as int
            };
            let ud = vunit(ray.dir);
            let dcos = vdot(vneg(ud), rec.normal);
            let cos_theta = if dcos > ONE as int {
                ONE as int
            } else {
                dcos
            };
            let sin_theta = fsqrt(fsub(ONE as int, fmul(cos_theta, cos_theta)));
            let cannot_refract = fmul(ratio, sin_theta) > ONE as int;
            let dir = if cannot_refract || spec_reflectance(cos_theta, ratio) > coin {
                vreflect(ray.dir, rec.normal)
            } else {
                vrefract(ud, rec.normal, ratio)
            };
            Some((Vec3 { x: ONE, y: ONE, z: ONE }, Ray { orig: rec.p, dir }))
        },
    }
}

/// Schlick's reflectance approximation.
fn reflectance(cosine: i64, ref_idx: i64) -> (r: i64)
    ensures
        r as int == spec_reflectance(cosine as int, ref_idx as int),
{
    let dnm = add_fp(ONE, ref_idx);
    let t = if dnm == 0 {
        0
    } else {
        div_fp(sub_fp(ONE, ref_idx), dnm)
    };
    let r0 = mul_fp(t, t);
    let u = sub_fp(ONE, cosine);
    let u2 = mul_fp(u, u);
    let u4 = mul_fp(u2, u2);
    let u5 = mul_fp(u4, u);
    add_fp(r0, mul_fp(sub_fp(ONE, r0), u5))
}

impl Material {
    /// Scatter an incoming ray at a hit. `rnd_unit` is the caller's random
    /// unit-vector draw and `coin` its uniform draw in `[0, ONE)`; given
    /// those, the result is exact.
    pub fn scatter(&self, ray: &Ray, hit_record: &HitRecord, rnd_unit: Vec3, coin: i64) -> (r:
        Option<(Vec3, Ray)>)
        ensures
            r == spec_scatter(*self, *ray, *hit_record, rnd_unit, coin as int),
    {
        proof {
            reveal(spec_scatter);
        }
        match self {
            Material::Lambertian(l) => {
                let d0 = hit_record.normal.add(rnd_unit);
                let d = if d0.near_zero() {
                    hit_record.normal
                } else {
                    d0
                };
                Some((l.albedo, Ray::new(hit_record.p, d)))
            },
            Material::Metal(mt) => {
                let d = ray.dir.reflect(hit_record.normal).add(rnd_unit.scale(mt.fuzz));
                if d.dot(hit_record.normal) > 0 {
                    Some((mt.albedo, Ray::new(hit_record.p, d)))
                } else {
                    None
                }
            },
            Material::Dielectric(dl) => {
                let ratio = if hit_record.is_front_face {
                    if dl.refractive_index == 0 {
                        0
                    } else {
                        div_fp(ONE, dl.refractive_index)
                    }
                } else {
                    dl.refractive_index
                };
                let ud = ray.dir.unit_vector();
                let dcos = ud.neg().dot(hit_record.normal);
                let cos_theta = if dcos > ONE {
                    ONE
                } else {
                    dcos
                };
                let csq = mul_fp(cos_theta, cos_theta);
                let s = sub_fp(ONE, csq);
                let sin_theta = if s < 0 {
                    0
                } else {
                    sqrt_fp(s)
                };
                let cannot_refract = mul_fp(ratio, sin_theta) > ONE;
                let dir = if cannot_refract || reflectance(cos_theta, ratio) > coin {
                    ray.dir.reflect(hit_record.normal)
                } else {
                    ud.refract(hit_record.normal, ratio)
                };
                Some((Vec3::new(ONE, ONE, ONE), Ray::new(hit_record.p, dir)))
            },
        }
    }
}

/// A mirror (fuzz zero) met head on reflects straight back: for a ray
/// running against an axis unit normal, the scattered ray is never
/// absorbed and its direction is exactly the negated incoming direction.
/// (The axis restriction is what exactness costs: against a normal of
/// fractional components, truncation perturbs the reflection by the
/// resolution of the scale.)
pub proof fn lemma_metal_mirror(
    m: Metal,
    ray: Ray,
    rec: HitRecord,
    rnd_unit: Vec3,
    coin: int,
    s: int,
)
    requires
        m.fuzz == 0,
        axis_unit(rec.normal),
        ray.dir == vscale(rec.normal, s),
        -(MODERATE as int) <= s <= -1,
    ensures
        spec_scatter(Material::Metal(m), ray, rec, rnd_unit, coin) == Some(
            (m.albedo, Ray { orig: rec.p, dir: vneg(ray.dir) }),
        ),
{
    reveal(spec_scatter);
    let n = rec.normal;
    let e = if n.x != 0 {
        n.x as int
    } else if n.y != 0 {
        n.y as int
    } else {
        n.z as int
    };
    // the incoming direction is the signed scalar on the axis
    lemma_fmul_zero(s);
    assert(e * s == s * e) by (nonlinear_arith);
    lemma_fmul_one(s);
    lemma_fmul_neg_one(s);
    let c = if e == ONE as int {
        s
    } else {
        -s
    };
    assert(vmoderate(ray.dir));
    // the reflection mirrors that component, which negates the direction
    lemma_reflect_axis(ray.dir, n);
    assert(vreflect(ray.dir, n) == vneg(ray.dir));
    // fuzz zero adds nothing
    lemma_vscale_zero(rnd_unit);
    lemma_vadd_zero(vreflect(ray.dir, n));
    let d = vadd(vreflect(ray.dir, n), vscale(rnd_unit, m.fuzz as int));
    assert(d == vneg(ray.dir));
    // the mirrored direction points with the normal: its dot is -s > 0
    lemma_fmul_zero(d.x as int);
    lemma_fmul_zero(d.y as int);
    lemma_fmul_zero(d.z as int);
    assert((-c) * e == c * (-e)) by (nonlinear_arith);
    lemma_fmul_one(-c);
    lemma_fmul_neg_one(-c);
    assert((-c) as int * e == e * (-c)) by (nonlinear_arith);
    assert(vdot(d, n) == -s);
}

/// A dielectric never absorbs: it scatters for every incoming ray, hit
/// record and pair of random draws.
pub proof fn lemma_dielectric_always_scatters(
    d: Dielectric,
    ray: Ray,
    rec: HitRecord,
    rnd_unit: Vec3,
    coin: int,
)
    ensures
        spec_scatter(Material::Dielectric(d), ray, rec, rnd_unit, coin) is Some,
{
    reveal(spec_scatter);
}

} // verus!
