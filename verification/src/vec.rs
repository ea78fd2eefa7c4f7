//! The 3-component fixed-point vector, used interchangeably as a spatial
//! point, a direction and a linear RGB color.
//!
//! Every executable operation returns exactly the value of its spec twin
//! (`vadd`, `vdot`, `vreflect`, ...), so algebraic laws proved of the spec
//! functions hold of the running code.

use vstd::prelude::*;

use crate::fixed::{
    ONE, HALF, fits, sat, iabs, tdiv, fadd, fsub, fneg, fmul, fdiv, fsqrt, is_isqrt, isqrt,
    add_fp, sub_fp, neg_fp, mul_fp, div_fp, abs_fp, sqrt_fp, lemma_isqrt_exists,
    lemma_isqrt_unique, lemma_tdiv_cancel, lemma_tdiv_neg, lemma_fmul_one, lemma_fmul_zero,
    lemma_fmul_neg_one,
};
use crate::interval::{Interval, spec_clamp};
use crate::rng::RandomSource;
use crate::text::{dec_str, u32_string};
use vstd::string::StringExecFns;

verus! {

/// A color is a vector whose components are linear RGB channels.
pub type Color = Vec3;

#[derive(Clone, Copy, Debug, PartialEq, Eq, Structural)]
pub struct Vec3 {
    pub x: i64,
    pub y: i64,
    pub z: i64,
}

pub open spec fn vzero() -> Vec3 {
    Vec3 { x: 0, y: 0, z: 0 }
}

/// Componentwise saturating addition.
pub open spec fn vadd(a: Vec3, b: Vec3) -> Vec3 {
    Vec3 {
        x: fadd(a.x as int, b.x as int) as i64,
        y: fadd(a.y as int, b.y as int) as i64,
        z: fadd(a.z as int, b.z as int) as i64,
    }
}

/// Componentwise saturating subtraction.
pub open spec fn vsub(a: Vec3, b: Vec3) -> Vec3 {
    Vec3 {
        x: fsub(a.x as int, b.x as int) as i64,
        y: fsub(a.y as int, b.y as int) as i64,
        z: fsub(a.z as int, b.z as int) as i64,
    }
}

/// Componentwise fixed-point product.
pub open spec fn vmul(a: Vec3, b: Vec3) -> Vec3 {
    Vec3 {
        x: fmul(a.x as int, b.x as int) as i64,
        y: fmul(a.y as int, b.y as int) as i64,
        z: fmul(a.z as int, b.z as int) as i64,
    }
}

/// Componentwise fixed-point quotient (a zero divisor component yields zero).
pub open spec fn vdiv(a: Vec3, b: Vec3) -> Vec3 {
    Vec3 {
        x: fdiv(a.x as int, b.x as int) as i64,
        y: fdiv(a.y as int, b.y as int) as i64,
        z: fdiv(a.z as int, b.z as int) as i64,
    }
}

/// Componentwise saturating negation.
pub open spec fn vneg(a: Vec3) -> Vec3 {
    Vec3 {
        x: fneg(a.x as int) as i64,
        y: fneg(a.y as int) as i64,
        z: fneg(a.z as int) as i64,
    }
}

/// Scalar multiple.
pub open spec fn vscale(a: Vec3, s: int) -> Vec3 {
    Vec3 {
        x: fmul(a.x as int, s) as i64,
        y: fmul(a.y as int, s) as i64,
        z: fmul(a.z as int, s) as i64,
    }
}

/// Scalar quotient (a zero scalar yields the zero vector).
pub open spec fn vdivs(a: Vec3, s: int) -> Vec3 {
    Vec3 {
        x: fdiv(a.x as int, s) as i64,
        y: fdiv(a.y as int, s) as i64,
        z: fdiv(a.z as int, s) as i64,
    }
}

/// A scalar added to each component.
pub open spec fn vadds(a: Vec3, s: int) -> Vec3 {
    Vec3 {
        x: fadd(a.x as int, s) as i64,
        y: fadd(a.y as int, s) as i64,
        z: fadd(a.z as int, s) as i64,
    }
}

/// A scalar subtracted from each component.
pub open spec fn vsubs(a: Vec3, s: int) -> Vec3 {
    Vec3 {
        x: fsub(a.x as int, s) as i64,
        y: fsub(a.y as int, s) as i64,
        z: fsub(a.z as int, s) as i64,
    }
}

/// Dot product: the saturating sum of the componentwise products.
pub open spec fn vdot(a: Vec3, b: Vec3) -> int {
    fadd(
        fadd(fmul(a.x as int, b.x as int), fmul(a.y as int, b.y as int)),
        fmul(a.z as int, b.z as int),
    )
}

/// Squared length, the dot product of a vector with itself.
pub open spec fn vlensq(a: Vec3) -> int {
    vdot(a, a)
}

/// Length: the fixed-point square root of the squared length.
pub open spec fn vlen(a: Vec3) -> int {
    fsqrt(vlensq(a))
}

/// Cross product.
pub open spec fn vcross(a: Vec3, b: Vec3) -> Vec3 {
    Vec3 {
        x: fsub(fmul(a.y as int, b.z as int), fmul(a.z as int, b.y as int)) as i64,
        y: fsub(fmul(a.z as int, b.x as int), fmul(a.x as int, b.z as int)) as i64,
        z: fsub(fmul(a.x as int, b.y as int), fmul(a.y as int, b.x as int)) as i64,
    }
}

/// The normalized direction: each component divided by the length.
/// A vector whose squared length truncates to zero normalizes to zero.
pub open spec fn vunit(a: Vec3) -> Vec3 {
    if vlensq(a) == 0 {
        vzero()
    } else {
        vdivs(a, vlen(a))
    }
}

/// True when every component vanishes: at this scale's resolution, the
/// epsilon guard on degenerate scatter directions admits only zero itself.
pub open spec fn vnear_zero(a: Vec3) -> bool {
    a.x == 0 && a.y == 0 && a.z == 0
}

/// Reflection off a normal: `v - 2 (v . n) n`.
pub open spec fn vreflect(v: Vec3, n: Vec3) -> Vec3 {
    vsub(v, vscale(n, fadd(vdot(v, n), vdot(v, n))))
}

/// Refraction of the unit direction `v` at a surface of normal `n` with
/// relative index `eta`, by Snell's law split into the components
/// perpendicular and parallel to the normal. The absolute value under the
/// square root guards against truncation at grazing angles.
pub open spec fn vrefract(v: Vec3, n: Vec3, eta: int) -> Vec3 {
    let d = vdot(vneg(v), n);
    let cos_theta = if d > ONE as int {
        ONE as int
    } else {
        d
    };
    let r_out_perp = vscale(vadd(v, vscale(n, cos_theta)), eta);
    let k = fsqrt(sat(iabs(fsub(ONE as int, vlensq(r_out_perp)))));
    vadd(r_out_perp, vscale(n, fneg(k)))
}

/// Square-root gamma encoding of each color channel; negative radiance
/// encodes to zero.
pub open spec fn vgamma(a: Vec3) -> Vec3 {
    Vec3 {
        x: fsqrt(a.x as int) as i64,
        y: fsqrt(a.y as int) as i64,
        z: fsqrt(a.z as int) as i64,
    }
}

/// A value the unit-vector sampler can return: the normalization of some
/// point of squared length in `(0, ONE)`.
pub open spec fn valid_unit_sample(u: Vec3) -> bool {
    exists|v: Vec3| 0 < vlensq(v) < ONE && u == vdivs(v, fsqrt(vlensq(v)))
}

/// The running sum of a sequence of vectors, folded from the left as the
/// sampling loops accumulate it.
pub open spec fn vsum(s: Seq<Vec3>) -> Vec3
    decreases s.len(),
{
    if s.len() == 0 {
        vzero()
    } else {
        vadd(vsum(s.drop_last()), s.last())
    }
}

/// A sampled vector oriented onto the hemisphere about `normal`: kept
/// when it points with the normal, negated otherwise.
pub open spec fn hemisphere_orient(u: Vec3, normal: Vec3) -> Vec3 {
    if vdot(u, normal) > 0 {
        u
    } else {
        vneg(u)
    }
}

/// Scaling by zero yields the zero vector.
pub proof fn lemma_vscale_zero(a: Vec3)
    ensures
        vscale(a, 0) == vzero(),
{
    lemma_fmul_zero(a.x as int);
    lemma_fmul_zero(a.y as int);
    lemma_fmul_zero(a.z as int);
}

/// Attenuating the zero color yields the zero color.
pub proof fn lemma_vmul_zero(a: Vec3)
    ensures
        vmul(a, vzero()) == vzero(),
{
    lemma_fmul_zero(a.x as int);
    lemma_fmul_zero(a.y as int);
    lemma_fmul_zero(a.z as int);
}

/// Adding the zero vector changes nothing.
pub proof fn lemma_vadd_zero(a: Vec3)
    ensures
        vadd(vzero(), a) == a,
        vadd(a, vzero()) == a,
{
}

/// Dividing by the scalar one changes nothing.
pub proof fn lemma_vdivs_one(a: Vec3)
    ensures
        vdivs(a, ONE as int) == a,
{
    lemma_tdiv_cancel(a.x as int, ONE as int);
    lemma_tdiv_cancel(a.y as int, ONE as int);
    lemma_tdiv_cancel(a.z as int, ONE as int);
}

/// The squared length is a nonnegative `i64` value.
pub proof fn lemma_vlensq_nonneg(a: Vec3)
    ensures
        0 <= vlensq(a) <= i64::MAX,
{
    assert(a.x as int * a.x as int >= 0) by (nonlinear_arith);
    assert(a.y as int * a.y as int >= 0) by (nonlinear_arith);
    assert(a.z as int * a.z as int >= 0) by (nonlinear_arith);
}

impl Vec3 {
    pub fn new(x: i64, y: i64, z: i64) -> (r: Self)
        ensures
            r == (Vec3 { x, y, z }),
    {
        Vec3 { x, y, z }
    }

    pub fn add(self, rhs: Self) -> (r: Self)
        ensures
            r == vadd(self, rhs),
    {
        Vec3 { x: add_fp(self.x, rhs.x), y: add_fp(self.y, rhs.y), z: add_fp(self.z, rhs.z) }
    }

    pub fn sub(self, rhs: Self) -> (r: Self)
        ensures
            r == vsub(self, rhs),
    {
        Vec3 { x: sub_fp(self.x, rhs.x), y: sub_fp(self.y, rhs.y), z: sub_fp(self.z, rhs.z) }
    }

    /// Componentwise product, the attenuation of a color by a color.
    pub fn mul(self, rhs: Self) -> (r: Self)
        ensures
            r == vmul(self, rhs),
    {
        Vec3 { x: mul_fp(self.x, rhs.x), y: mul_fp(self.y, rhs.y), z: mul_fp(self.z, rhs.z) }
    }

    /// Componentwise quotient; a zero component of `rhs` yields zero there.
    pub fn div(self, rhs: Self) -> (r: Self)
        ensures
            r == vdiv(self, rhs),
    {
        Vec3 {
            x: if rhs.x == 0 {
                0
            } else {
                div_fp(self.x, rhs.x)
            },
            y: if rhs.y == 0 {
                0
            } else {
                div_fp(self.y, rhs.y)
            },
            z: if rhs.z == 0 {
                0
            } else {
                div_fp(self.z, rhs.z)
            },
        }
    }

    pub fn neg(self) -> (r: Self)
        ensures
            r == vneg(self),
    {
        Vec3 { x: neg_fp(self.x), y: neg_fp(self.y), z: neg_fp(self.z) }
    }

    /// Add a bare scalar to each component.
    pub fn add_scalar(self, s: i64) -> (r: Self)
        ensures
            r == vadds(self, s as int),
    {
        Vec3 { x: add_fp(self.x, s), y: add_fp(self.y, s), z: add_fp(self.z, s) }
    }

    /// Subtract a bare scalar from each component.
    pub fn sub_scalar(self, s: i64) -> (r: Self)
        ensures
            r == vsubs(self, s as int),
    {
        Vec3 { x: sub_fp(self.x, s), y: sub_fp(self.y, s), z: sub_fp(self.z, s) }
    }

    /// Scalar multiple.
    pub fn scale(self, s: i64) -> (r: Self)
        ensures
            r == vscale(self, s as int),
    {
        Vec3 { x: mul_fp(self.x, s), y: mul_fp(self.y, s), z: mul_fp(self.z, s) }
    }

    /// Scalar quotient; a zero scalar yields the zero vector.
    pub fn div_scalar(self, s: i64) -> (r: Self)
        ensures
            r == vdivs(self, s as int),
    {
        if s == 0 {
            Vec3 { x: 0, y: 0, z: 0 }
        } else {
            Vec3 { x: div_fp(self.x, s), y: div_fp(self.y, s), z: div_fp(self.z, s) }
        }
    }

    pub fn dot(self, rhs: Self) -> (r: i64)
        ensures
            r as int == vdot(self, rhs),
    {
        add_fp(add_fp(mul_fp(self.x, rhs.x), mul_fp(self.y, rhs.y)), mul_fp(self.z, rhs.z))
    }

    pub fn length_squared(self) -> (r: i64)
        ensures
            r as int == vlensq(self),
    {
        self.dot(self)
    }

    pub fn length(self) -> (r: i64)
        ensures
            r as int == vlen(self),
    {
        proof {
            lemma_vlensq_nonneg(self);
        }
        sqrt_fp(self.length_squared())
    }

    pub fn cross(self, rhs: Self) -> (r: Self)
        ensures
            r == vcross(self, rhs),
    {
        Vec3 {
            x: sub_fp(mul_fp(self.y, rhs.z), mul_fp(self.z, rhs.y)),
            y: sub_fp(mul_fp(self.z, rhs.x), mul_fp(self.x, rhs.z)),
            z: sub_fp(mul_fp(self.x, rhs.y), mul_fp(self.y, rhs.x)),
        }
    }

    pub fn unit_vector(self) -> (r: Self)
        ensures
            r == vunit(self),
    {
        proof {
            lemma_vlensq_nonneg(self);
        }
        let lsq = self.length_squared();
        if lsq == 0 {
            Vec3 { x: 0, y: 0, z: 0 }
        } else {
            let len = sqrt_fp(lsq);
            proof {
                lemma_isqrt_exists(lsq as int * ONE as int);
                assert(lsq as int * ONE as int >= 65536) by (nonlinear_arith)
                    requires
                        lsq >= 1,
                ;
                assert(is_isqrt(lsq as int * ONE as int, len as int));
                assert(len as int >= 1) by {
                    if len as int == 0 {
                        assert((len as int + 1) * (len as int + 1) == 1) by (nonlinear_arith)
                            requires
                                len as int == 0,
                        ;
                        assert(false);
                    }
                };
            }
            Vec3 { x: div_fp(self.x, len), y: div_fp(self.y, len), z: div_fp(self.z, len) }
        }
    }

    /// True when the vector is too small to carry a direction.
    pub fn near_zero(self) -> (r: bool)
        ensures
            r == vnear_zero(self),
    {
        self.x == 0 && self.y == 0 && self.z == 0
    }

    /// Reflect this vector off `normal`.
    pub fn reflect(self, normal: Vec3) -> (r: Self)
        ensures
            r == vreflect(self, normal),
    {
        let d = self.dot(normal);
        self.sub(normal.scale(add_fp(d, d)))
    }

    /// Refract this unit direction at a surface of `normal` with relative
    /// refraction index `etai_over_etat`.
    pub fn refract(self, normal: Vec3, etai_over_etat: i64) -> (r: Self)
        ensures
            r == vrefract(self, normal, etai_over_etat as int),
    {
        let d = self.neg().dot(normal);
        let cos_theta = if d > ONE {
            ONE
        } else {
            d
        };
        let r_out_perp = self.add(normal.scale(cos_theta)).scale(etai_over_etat);
        let s = abs_fp(sub_fp(ONE, r_out_perp.length_squared()));
        let k = sqrt_fp(s);
        r_out_perp.add(normal.scale(neg_fp(k)))
    }

    /// A vector with each component drawn uniformly from `[0, ONE)`.
    pub fn random(rng: &mut RandomSource) -> (r: Self)
        ensures
            0 <= r.x < ONE && 0 <= r.y < ONE && 0 <= r.z < ONE,
    {
        Vec3 { x: rng.next_fp(0, ONE), y: rng.next_fp(0, ONE), z: rng.next_fp(0, ONE) }
    }

    /// A vector with each component drawn uniformly from `[lo, hi)`.
    pub fn random_range(rng: &mut RandomSource, lo: i64, hi: i64) -> (r: Self)
        requires
            lo < hi,
        ensures
            lo <= r.x < hi && lo <= r.y < hi && lo <= r.z < hi,
    {
        Vec3 { x: rng.next_fp(lo, hi), y: rng.next_fp(lo, hi), z: rng.next_fp(lo, hi) }
    }

    /// Rejection-sample a point strictly inside the unit sphere, away from
    /// zero, and normalize it: the result is the normalization of some
    /// vector of squared length in `(0, ONE)`, with every component within
    /// `UNIT_COMPONENT_BOUND`. The tries are bounded so that the sampler
    /// provably terminates; exhausting them (an all but impossible run of
    /// rejections) falls back to the x-axis unit vector, which is the
    /// normalization of such a vector too.
    pub fn random_unit_vector(rng: &mut RandomSource) -> (r: Self)
        ensures
            valid_unit_sample(r),
            iabs(r.x as int) <= UNIT_COMPONENT_BOUND,
            iabs(r.y as int) <= UNIT_COMPONENT_BOUND,
            iabs(r.z as int) <= UNIT_COMPONENT_BOUND,
    {
        let mut tries: u32 = 0;
        while tries < 64
            invariant
                tries <= 64,
            decreases 64 - tries,
        {
            let v = Self::random_range(rng, -ONE, ONE);
            let lsq = v.length_squared();
            if 0 < lsq && lsq < ONE {
                let len = sqrt_fp(lsq);
                let u = v.div_scalar(len);
                proof {
                    assert(0 < vlensq(v) < ONE && u == vdivs(v, fsqrt(vlensq(v))));
                    lemma_isqrt_exists(lsq as int * ONE as int);
                    assert(lsq as int * ONE as int >= 65536) by (nonlinear_arith)
                        requires
                            lsq >= 1,
                    ;
                    assert(is_isqrt(lsq as int * ONE as int, len as int));
                    assert(len >= 256) by (nonlinear_arith)
                        requires
                            0 <= len,
                            (len as int + 1) * (len as int + 1) > 65536,
                    ;
                    lemma_unit_component_bound(v.x as int, len as int);
                    lemma_unit_component_bound(v.y as int, len as int);
                    lemma_unit_component_bound(v.z as int, len as int);
                }
                return u;
            }
            tries = tries + 1;
        }
        let fallback = Vec3 { x: ONE, y: 0, z: 0 };
        proof {
            let w = Vec3 { x: HALF, y: 0, z: 0 };
            lemma_fmul_zero(0);
            assert(32768int * 32768 == 1073741824) by (nonlinear_arith);
            assert(65536int * 16384 == 1073741824) by (nonlinear_arith);
            vstd::arithmetic::div_mod::lemma_div_multiples_vanish(16384, 65536);
            assert(tdiv(1073741824, 65536) == 16384);
            assert(vlensq(w) == 16384);
            assert(16384int * 65536 == 1073741824) by (nonlinear_arith);
            assert(32768int * 32768 <= 1073741824 < 32769int * 32769) by (nonlinear_arith);
            crate::fixed::lemma_isqrt_unique(1073741824, 32768);
            assert(fsqrt(16384) == 32768);
            lemma_tdiv_cancel(65536, 32768);
            assert(32768int * 65536 == 65536int * 32768) by (nonlinear_arith);
            assert(fdiv(32768int, 32768) == 65536);
            assert(0int * 65536 == 0) by (nonlinear_arith);
            vstd::arithmetic::div_mod::lemma_div_of0(32768);
            assert(fdiv(0int, 32768) == 0);
            assert(0 < vlensq(w) < ONE && fallback == vdivs(w, fsqrt(vlensq(w))));
        }
        fallback
    }

    /// Rejection-sample a point strictly inside the unit circle of the
    /// x-y plane. Bounded tries, falling back to the center point.
    pub fn random_in_unit_circle(rng: &mut RandomSource) -> (r: Self)
        ensures
            vlensq(r) < ONE,
            r.z == 0,
    {
        let mut tries: u32 = 0;
        while tries < 64
            invariant
                tries <= 64,
            decreases 64 - tries,
        {
            let v = Vec3 { x: rng.next_fp(-ONE, ONE), y: rng.next_fp(-ONE, ONE), z: 0 };
            if v.length_squared() < ONE {
                return v;
            }
            tries = tries + 1;
        }
        proof {
            lemma_vlensq_nonneg(vzero());
            assert(vlensq(vzero()) == 0) by {
                assert(tdiv(0int * 0, 65536) == 0);
            }
        }
        Vec3 { x: 0, y: 0, z: 0 }
    }

    /// A random unit vector turned onto the hemisphere about `normal`:
    /// the result never points away from the normal. The bound on the
    /// normal's components is a machine limit: it keeps the projection
    /// products exact, so that negating the sample negates the dot.
    pub fn random_on_hemisphere(normal: Vec3, rng: &mut RandomSource) -> (r: Self)
        requires
            iabs(normal.x as int) <= HEMISPHERE_NORMAL_BOUND,
            iabs(normal.y as int) <= HEMISPHERE_NORMAL_BOUND,
            iabs(normal.z as int) <= HEMISPHERE_NORMAL_BOUND,
        ensures
            exists|u: Vec3| r == hemisphere_orient(u, normal),
            vdot(r, normal) >= 0,
    {
        let vec = Self::random_unit_vector(rng);
        let r = if vec.dot(normal) > 0 {
            vec
        } else {
            proof {
                lemma_vdot_neg_moderate(vec, normal);
            }
            vec.neg()
        };
        proof {
            assert(r == hemisphere_orient(vec, normal));
        }
        r
    }

    /// Gamma-encode each channel by its square root.
    pub fn linear_to_gamme(self) -> (r: Self)
        ensures
            r == vgamma(self),
    {
        Vec3 {
            x: if self.x < 0 {
                0
            } else {
                sqrt_fp(self.x)
            },
            y: if self.y < 0 {
                0
            } else {
                sqrt_fp(self.y)
            },
            z: if self.z < 0 {
                0
            } else {
                sqrt_fp(self.z)
            },
        }
    }
}

/// The clamping window of an output color channel: `[0, 0.999]` in the
/// fixed-point scale, so that the scaled byte never rounds up to 256.
pub open spec fn color_window() -> Interval {
    Interval { min: 0, max: 65470 }
}

/// The output byte of one linear color channel: gamma-encode, clamp into
/// the color window, and scale by 255.999 (the ratio 255999 / 1000,
/// against the scale's 65536), truncating.
pub open spec fn channel_byte(c: int) -> int {
    spec_clamp(color_window(), fsqrt(c)) * 255999 / 65536000
}

/// The text of one output pixel: the three channel bytes in decimal,
/// space-separated.
pub open spec fn spec_byte_triple(a: Vec3) -> Seq<char> {
    dec_str(channel_byte(a.x as int)) + seq![' '] + dec_str(channel_byte(a.y as int)) + seq![' ']
        + dec_str(channel_byte(a.z as int))
}

/// Scale a clamped channel by 255.999, truncating to a byte value.
fn scale_byte(cl: i64) -> (b: u32)
    requires
        0 <= cl <= 65470,
    ensures
        b as int == cl * 255999 / 65536000,
        b <= 255,
{
    let wide: u64 = (cl as u64) * 255999;
    let b = (wide / 65536000) as u32;
    proof {
        vstd::arithmetic::div_mod::lemma_div_is_ordered(wide as int, 16760254530, 65536000);
    }
    b
}

impl Vec3 {
    /// The gamma-corrected, clamped, byte-scaled text of this color:
    /// three integers in `[0, 255]`, space-separated.
    pub fn to_bytes_string(self) -> (s: String)
        ensures
            s@ == spec_byte_triple(self),
    {
        let interval = Interval::new(0, 65470);
        let gamma = self.linear_to_gamme();
        let bx = scale_byte(interval.clamp(gamma.x));
        let by = scale_byte(interval.clamp(gamma.y));
        let bz = scale_byte(interval.clamp(gamma.z));
        let mut s = u32_string(bx);
        proof {
            reveal_strlit(" ");
            assert((" ")@ =~= seq![' ']);
        }
        s.append(" ");
        let sy = u32_string(by);
        s.append(sy.as_str());
        s.append(" ");
        let sz = u32_string(bz);
        s.append(sz.as_str());
        proof {
            crate::fixed::lemma_fsqrt_bounds(self.x as int);
            crate::fixed::lemma_fsqrt_bounds(self.y as int);
            crate::fixed::lemma_fsqrt_bounds(self.z as int);
            assert(gamma.x as int == fsqrt(self.x as int));
            assert(gamma.y as int == fsqrt(self.y as int));
            assert(gamma.z as int == fsqrt(self.z as int));
            assert(s@ =~= spec_byte_triple(self));
        }
        s
    }
}

/// The magnitude under which reflection arithmetic cannot saturate:
/// doubling and negating a component stays representable.
pub const MODERATE: i64 = 0x3fffffffffffffff;

/// Every component of a normalized sample stays within this bound: the
/// sampled point has components of at most the scale and squared length
/// at least one unit, so the quotient is at most the scale squared over
/// the smallest possible length.
pub const UNIT_COMPONENT_BOUND: i64 = 0x1000000;

/// A normal this moderate keeps each projection product of a normalized
/// sample within the saturation bounds.
pub const HEMISPHERE_NORMAL_BOUND: i64 = 0x20000000000000;

/// A normalized sample's component: the quotient of a component of at
/// most the scale by a length of at least 256 stays within the bound.
proof fn lemma_unit_component_bound(c: int, len: int)
    requires
        iabs(c) <= 65536,
        256 <= len,
    ensures
        iabs(fdiv(c, len)) <= UNIT_COMPONENT_BOUND,
{
    assert(iabs(c * 65536) <= 0x100000000) by (nonlinear_arith)
        requires
            iabs(c) <= 65536,
    ;
    vstd::arithmetic::div_mod::lemma_div_is_ordered_by_denominator(iabs(c * 65536), 256, len);
    vstd::arithmetic::div_mod::lemma_div_is_ordered(iabs(c * 65536), 0x100000000, 256);
    assert(0x100000000int == 256 * 0x1000000) by (nonlinear_arith);
    vstd::arithmetic::div_mod::lemma_div_multiples_vanish(0x1000000, 256);
}

/// A single projection product of a bounded sample against a moderate
/// normal does not saturate, and negating the sample negates the product.
proof fn lemma_fmul_neg_moderate(a: int, b: int)
    requires
        iabs(a) <= UNIT_COMPONENT_BOUND,
        iabs(b) <= HEMISPHERE_NORMAL_BOUND,
    ensures
        iabs(fmul(a, b)) <= 0x2000000000000000,
        fmul(-a, b) == -fmul(a, b),
{
    assert(iabs(a * b) <= 0x20000000000000000000) by (nonlinear_arith)
        requires
            iabs(a) <= 0x1000000 && iabs(b) <= 0x20000000000000,
    ;
    vstd::arithmetic::div_mod::lemma_div_is_ordered(iabs(a * b), 0x20000000000000000000, 65536);
    assert(0x20000000000000000000int == 65536 * 0x2000000000000000) by (nonlinear_arith);
    vstd::arithmetic::div_mod::lemma_div_multiples_vanish(0x2000000000000000, 65536);
    assert((-a) * b == -(a * b)) by (nonlinear_arith);
    lemma_tdiv_neg(a * b, 65536);
}

/// Negating a bounded sample negates its dot with a moderate normal.
proof fn lemma_vdot_neg_moderate(u: Vec3, n: Vec3)
    requires
        iabs(u.x as int) <= UNIT_COMPONENT_BOUND,
        iabs(u.y as int) <= UNIT_COMPONENT_BOUND,
        iabs(u.z as int) <= UNIT_COMPONENT_BOUND,
        iabs(n.x as int) <= HEMISPHERE_NORMAL_BOUND,
        iabs(n.y as int) <= HEMISPHERE_NORMAL_BOUND,
        iabs(n.z as int) <= HEMISPHERE_NORMAL_BOUND,
    ensures
        vdot(vneg(u), n) == -vdot(u, n),
{
    lemma_fmul_neg_moderate(u.x as int, n.x as int);
    lemma_fmul_neg_moderate(u.y as int, n.y as int);
    lemma_fmul_neg_moderate(u.z as int, n.z as int);
}

/// Every component small enough that reflection arithmetic is exact.
pub open spec fn vmoderate(a: Vec3) -> bool {
    iabs(a.x as int) <= MODERATE && iabs(a.y as int) <= MODERATE && iabs(a.z as int) <= MODERATE
}

/// A signed unit vector along one coordinate axis.
pub open spec fn axis_unit(n: Vec3) -> bool {
    ((n.x == ONE || n.x == -ONE) && n.y == 0 && n.z == 0) || ((n.y == ONE || n.y == -ONE) && n.x
        == 0 && n.z == 0) || ((n.z == ONE || n.z == -ONE) && n.x == 0 && n.y == 0)
}

/// The mirror image of `v` across the plane normal to the axis `n` lies on.
pub open spec fn axis_mirror(v: Vec3, n: Vec3) -> Vec3 {
    if n.x != 0 {
        Vec3 { x: (-(v.x as int)) as i64, y: v.y, z: v.z }
    } else if n.y != 0 {
        Vec3 { x: v.x, y: (-(v.y as int)) as i64, z: v.z }
    } else {
        Vec3 { x: v.x, y: v.y, z: (-(v.z as int)) as i64 }
    }
}

/// Vector addition is commutative.
pub proof fn lemma_vadd_comm(a: Vec3, b: Vec3)
    ensures
        vadd(a, b) == vadd(b, a),
{
}

/// Vector addition is associative wherever no component sum saturates.
pub proof fn lemma_vadd_assoc(a: Vec3, b: Vec3, c: Vec3)
    requires
        fits(a.x + b.x) && fits(a.y + b.y) && fits(a.z + b.z),
        fits(b.x + c.x) && fits(b.y + c.y) && fits(b.z + c.z),
        fits(a.x + b.x + c.x) && fits(a.y + b.y + c.y) && fits(a.z + b.z + c.z),
    ensures
        vadd(vadd(a, b), c) == vadd(a, vadd(b, c)),
{
}

/// A vector minus itself is the zero vector.
pub proof fn lemma_vsub_self(a: Vec3)
    ensures
        vsub(a, a) == vzero(),
{
}

/// The dot product of a vector with itself is its squared length.
pub proof fn lemma_dot_self_is_length_squared(a: Vec3)
    ensures
        vdot(a, a) == vlensq(a),
{
}

/// The cross product is antisymmetric wherever no component difference
/// saturates.
pub proof fn lemma_vcross_antisymm(a: Vec3, b: Vec3)
    requires
        fits(fmul(a.y as int, b.z as int) - fmul(a.z as int, b.y as int)),
        fits(fmul(a.z as int, b.y as int) - fmul(a.y as int, b.z as int)),
        fits(fmul(a.z as int, b.x as int) - fmul(a.x as int, b.z as int)),
        fits(fmul(a.x as int, b.z as int) - fmul(a.z as int, b.x as int)),
        fits(fmul(a.x as int, b.y as int) - fmul(a.y as int, b.x as int)),
        fits(fmul(a.y as int, b.x as int) - fmul(a.x as int, b.y as int)),
    ensures
        vcross(a, b) == vneg(vcross(b, a)),
{
    assert(a.y as int * b.z as int == b.z as int * a.y as int) by (nonlinear_arith);
    assert(a.z as int * b.y as int == b.y as int * a.z as int) by (nonlinear_arith);
    assert(a.z as int * b.x as int == b.x as int * a.z as int) by (nonlinear_arith);
    assert(a.x as int * b.z as int == b.z as int * a.x as int) by (nonlinear_arith);
    assert(a.x as int * b.y as int == b.y as int * a.x as int) by (nonlinear_arith);
    assert(a.y as int * b.x as int == b.x as int * a.y as int) by (nonlinear_arith);
}

/// The arithmetic facts of a single axis-aligned component whose value is
/// a whole multiple of the scale: its square does not saturate, its
/// length recovers its magnitude, and dividing by that magnitude leaves a
/// signed unit.
proof fn lemma_axis_norm(k: int)
    requires
        k != 0,
        k % (ONE as int) == 0,
        iabs(k) <= 0x8000000000,
    ensures
        0 < fmul(k, k) <= 0x4000000000000000,
        fsqrt(fmul(k, k)) == iabs(k),
        fdiv(k, iabs(k)) == if k > 0 {
            ONE as int
        } else {
            -(ONE as int)
        },
{
    let s = ONE as int;
    vstd::arithmetic::div_mod::lemma_fundamental_div_mod(k, s);
    let m = k / s;
    assert(k == s * m);
    assert(k * k == s * (m * m * s)) by (nonlinear_arith)
        requires
            k == s * m && s == 65536,
    ;
    assert(k * k >= 0) by (nonlinear_arith);
    vstd::arithmetic::div_mod::lemma_div_multiples_vanish(m * m * s, s);
    assert(tdiv(k * k, s) == m * m * s);
    assert(m != 0) by (nonlinear_arith)
        requires
            k == s * m && k != 0,
    ;
    assert(m * m * s >= s) by (nonlinear_arith)
        requires
            m != 0 && s == 65536,
    ;
    assert(k * k <= 0x40000000000000000000) by (nonlinear_arith)
        requires
            iabs(k) <= 0x8000000000,
    ;
    assert(0x40000000000000000000 == 65536 * 0x4000000000000000int) by (nonlinear_arith);
    vstd::arithmetic::div_mod::lemma_div_is_ordered(k * k, 0x40000000000000000000, s);
    vstd::arithmetic::div_mod::lemma_div_multiples_vanish(0x4000000000000000, s);
    assert(fmul(k, k) == m * m * s);
    assert((m * m * s) * s == k * k) by (nonlinear_arith)
        requires
            k == s * m,
    ;
    assert(iabs(k) * iabs(k) == k * k) by (nonlinear_arith);
    assert(k * k < (iabs(k) + 1) * (iabs(k) + 1)) by (nonlinear_arith)
        requires
            0 <= iabs(k) && iabs(k) * iabs(k) == k * k,
    ;
    lemma_isqrt_unique(k * k, iabs(k));
    if k > 0 {
        lemma_tdiv_cancel(s, k);
        assert(k * s == s * k) by (nonlinear_arith);
        assert(fdiv(k, iabs(k)) == s);
    } else {
        lemma_tdiv_cancel(s, -k);
        assert((-k) * s == s * (-k)) by (nonlinear_arith);
        assert(k * s == -((-k) * s)) by (nonlinear_arith);
        crate::fixed::lemma_tdiv_neg((-k) * s, -k);
        assert(fdiv(k, iabs(k)) == -s);
    }
}

/// Normalizing an axis-aligned vector of whole magnitude yields a vector
/// of length exactly one. (Truncation keeps this from holding of every
/// vector: normalizing a vector of fractional components can leave a
/// length off by the resolution of the scale.)
pub proof fn lemma_unit_vector_length(a: Vec3)
    requires
        axis_unit_integer(a),
    ensures
        vlen(vunit(a)) == ONE as int,
{
    lemma_fmul_zero(0);
    if a.y == 0 && a.z == 0 {
        lemma_axis_norm(a.x as int);
        lemma_unit_axis_common(fmul(a.x as int, a.x as int), iabs(a.x as int), fdiv(a.x as int, iabs(a.x as int)));
        assert(vlen(vunit(a)) == ONE as int);
    } else if a.x == 0 && a.z == 0 {
        lemma_axis_norm(a.y as int);
        lemma_unit_axis_common(fmul(a.y as int, a.y as int), iabs(a.y as int), fdiv(a.y as int, iabs(a.y as int)));
        assert(vlen(vunit(a)) == ONE as int);
    } else {
        lemma_axis_norm(a.z as int);
        lemma_unit_axis_common(fmul(a.z as int, a.z as int), iabs(a.z as int), fdiv(a.z as int, iabs(a.z as int)));
        assert(vlen(vunit(a)) == ONE as int);
    }
}

/// An axis-aligned vector whose one nonzero component is a whole multiple
/// of the scale, of moderate magnitude.
pub open spec fn axis_unit_integer(a: Vec3) -> bool {
    (a.y == 0 && a.z == 0 && a.x != 0 && a.x as int % (ONE as int) == 0 && iabs(a.x as int)
        <= 0x8000000000) || (a.x == 0 && a.z == 0 && a.y != 0 && a.y as int % (ONE as int) == 0
        && iabs(a.y as int) <= 0x8000000000) || (a.x == 0 && a.y == 0 && a.z != 0 && a.z as int % (
    ONE as int) == 0 && iabs(a.z as int) <= 0x8000000000)
}

/// The shared tail of the axis normalization argument: a signed unit
/// component has squared length exactly the scale, whose root is the
/// scale.
proof fn lemma_unit_axis_common(l: int, len: int, unit_c: int)
    requires
        unit_c == ONE as int || unit_c == -(ONE as int),
    ensures
        fmul(unit_c, unit_c) == ONE as int,
        fsqrt(ONE as int) == ONE as int,
        fdiv(0, len) == 0 || len == 0,
{
    assert(unit_c * unit_c == 65536int * 65536) by (nonlinear_arith)
        requires
            unit_c == 65536 || unit_c == -65536,
    ;
    lemma_tdiv_cancel(65536, 65536);
    assert(fmul(unit_c, unit_c) == ONE as int);
    assert(65536int * 65536 == 4294967296) by (nonlinear_arith);
    assert(65536int * 65536 <= 4294967296 < 65537int * 65537) by (nonlinear_arith);
    lemma_isqrt_unique(4294967296, 65536);
    if len != 0 {
        crate::fixed::lemma_fdiv_zero(len);
    }
}

/// Reflecting off a signed axis unit normal mirrors the one coordinate
/// the normal spans and keeps the others, exactly.
pub proof fn lemma_reflect_axis(v: Vec3, n: Vec3)
    requires
        axis_unit(n),
        vmoderate(v),
    ensures
        vreflect(v, n) == axis_mirror(v, n),
        vmoderate(axis_mirror(v, n)),
{
    lemma_fmul_zero(v.x as int);
    lemma_fmul_zero(v.y as int);
    lemma_fmul_zero(v.z as int);
    if n.x != 0 {
        lemma_reflect_one_axis(v.x as int, n.x as int);
        let d2 = fadd(vdot(v, n), vdot(v, n));
        lemma_fmul_zero(d2);
        assert(vreflect(v, n) == axis_mirror(v, n));
    } else if n.y != 0 {
        lemma_reflect_one_axis(v.y as int, n.y as int);
        let d2 = fadd(vdot(v, n), vdot(v, n));
        lemma_fmul_zero(d2);
        assert(vreflect(v, n) == axis_mirror(v, n));
    } else {
        lemma_reflect_one_axis(v.z as int, n.z as int);
        let d2 = fadd(vdot(v, n), vdot(v, n));
        lemma_fmul_zero(d2);
        assert(vreflect(v, n) == axis_mirror(v, n));
    }
}

/// The scalar core of the axis reflection: the products against the
/// signed unit are exact, and the doubled projection pulls the component
/// to its negation.
proof fn lemma_reflect_one_axis(c: int, e: int)
    requires
        e == ONE as int || e == -(ONE as int),
        iabs(c) <= MODERATE as int,
    ensures
        fmul(c, e) == if e == ONE as int {
            c
        } else {
            -c
        },
        fmul(e, fadd(fmul(c, e), fmul(c, e))) == c + c,
{
    lemma_fmul_one(c);
    lemma_fmul_neg_one(c);
    let d = fmul(c, e);
    let d2 = fadd(d, d);
    assert(e * d2 == d2 * e) by (nonlinear_arith);
    lemma_fmul_one(d2);
    lemma_fmul_neg_one(d2);
    assert(fmul(e, d2) == fmul(d2, e));
}

/// Reflecting off an axis unit normal preserves the squared length
/// exactly: the mirror flips one coordinate, whose square is unchanged.
/// (With a normal of fractional components, truncation in the projection
/// can shift the length by the resolution of the scale.)
pub proof fn lemma_reflect_isometry(v: Vec3, n: Vec3)
    requires
        axis_unit(n),
        vmoderate(v),
    ensures
        vlensq(vreflect(v, n)) == vlensq(v),
{
    lemma_reflect_axis(v, n);
    assert((-(v.x as int)) * (-(v.x as int)) == v.x as int * v.x as int) by (nonlinear_arith);
    assert((-(v.y as int)) * (-(v.y as int)) == v.y as int * v.y as int) by (nonlinear_arith);
    assert((-(v.z as int)) * (-(v.z as int)) == v.z as int * v.z as int) by (nonlinear_arith);
}

/// Reflecting twice off the same axis unit normal restores the vector
/// exactly. (With a normal of fractional components, truncation in the
/// projection can shift the result by the resolution of the scale.)
pub proof fn lemma_reflect_involutive(v: Vec3, n: Vec3)
    requires
        axis_unit(n),
        vmoderate(v),
    ensures
        vreflect(vreflect(v, n), n) == v,
{
    lemma_reflect_axis(v, n);
    lemma_reflect_axis(axis_mirror(v, n), n);
    assert(axis_mirror(axis_mirror(v, n), n) == v);
}

impl Default for Vec3 {
    fn default() -> (r: Self)
        ensures
            r == vzero(),
    {
        Vec3 { x: 0, y: 0, z: 0 }
    }
}

} // verus!
