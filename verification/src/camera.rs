//! The camera: viewport and lens geometry derived once from a
//! configuration, jittered and defocused ray generation, the recursive
//! radiance evaluator, and the renderer emitting the plain-text image.

use vstd::prelude::*;
use vstd::string::StringExecFns;

use rayon::iter::IntoParallelIterator;
use rayon::iter::ParallelIterator;

use crate::fixed::{ONE, HALF, fadd, fsub, fmul, fdiv, tdiv, add_fp, sub_fp, mul_fp, div_fp};
use crate::hittable::{Hittable, HittableList, spec_scene_hit};
use crate::materials::spec_scatter;
use crate::interval::Interval;
use crate::ray::Ray;
use crate::rng::RandomSource;
use crate::text::{dec_str, u32_string};
use crate::vec::{
    Vec3, Color, vzero, vadd, vsub, vmul, vneg, vscale, vdivs, vcross, vunit, vlensq, vsum,
    valid_unit_sample, spec_byte_triple, lemma_vmul_zero, lemma_vadd_zero, lemma_vdivs_one,
};

verus! {

/// The closest admissible hit parameter of a shading query, just above
/// zero so that a freshly scattered ray cannot re-hit its own origin
/// (shadow acne); about a thousandth in the fixed-point scale.
pub const T_MIN: i64 = 66;

/// The camera configuration. Angles arrive pre-tabulated as tangents
/// (`tan_half_fov`, `tan_half_defocus`), the one form the fixed-point
/// derivation needs; a pinhole camera has `tan_half_defocus` zero.
#[derive(Clone, Copy, Debug, PartialEq, Eq, Structural)]
pub struct CameraArgs {
    /// Width over height, fixed-point.
    pub aspect_ratio: i64,
    pub image_width: u32,
    /// Accepted for configuration compatibility; the derivation places
    /// the camera at `lookfrom`.
    pub origin: Vec3,
    /// Accepted for configuration compatibility; the derivation focuses
    /// at `focus_distance`.
    pub focal_length: i64,
    pub samples_per_pixel: u32,
    pub max_depth: u32,
    /// Tangent of half the vertical field of view; one means 90 degrees.
    pub tan_half_fov: i64,
    pub lookfrom: Vec3,
    pub lookat: Vec3,
    pub up: Vec3,
    /// Tangent of half the defocus cone angle; zero disables the lens.
    pub tan_half_defocus: i64,
    pub focus_distance: i64,
}

/// The documented defaults: a 16:9 image of width 400, 10 samples,
/// depth 10, a 90 degree field of view and a pinhole lens.
pub open spec fn spec_default_args() -> CameraArgs {
    CameraArgs {
        aspect_ratio: 116508,
        image_width: 400,
        origin: vzero(),
        focal_length: ONE,
        samples_per_pixel: 10,
        max_depth: 10,
        tan_half_fov: ONE,
        lookfrom: vzero(),
        lookat: Vec3 { x: 0, y: 0, z: -65536i64 },
        up: Vec3 { x: 0, y: 65536, z: 0 },
        tan_half_defocus: 0,
        focus_distance: ONE,
    }
}

impl Default for CameraArgs {
    fn default() -> (r: Self)
        ensures
            r == spec_default_args(),
    {
        CameraArgs {
            aspect_ratio: 116508,
            image_width: 400,
            origin: Vec3::new(0, 0, 0),
            focal_length: ONE,
            samples_per_pixel: 10,
            max_depth: 10,
            tan_half_fov: ONE,
            lookfrom: Vec3::new(0, 0, 0),
            lookat: Vec3::new(0, 0, -65536),
            up: Vec3::new(0, 65536, 0),
            tan_half_defocus: 0,
            focus_distance: ONE,
        }
    }
}

/// The derived, immutable camera.
#[derive(Clone, Copy, Debug, PartialEq, Eq, Structural)]
pub struct Camera {
    pub image_width: u32,
    pub image_height: u32,
    pub origin: Vec3,
    pub pixel_00_location: Vec3,
    pub pixel_delta_u: Vec3,
    pub pixel_delta_v: Vec3,
    pub defocus_disk_u: Vec3,
    pub defocus_disk_v: Vec3,
    pub tan_half_defocus: i64,
    pub samples_per_pixel: u32,
    pub max_depth: u32,
}

/// The image height derived from width and aspect ratio: the quotient
/// rounded to the nearest row (halves up), but at least one row.
pub open spec fn spec_image_height(args: CameraArgs) -> int {
    let q = fdiv(args.image_width * (ONE as int), args.aspect_ratio as int);
    let h = (q + HALF as int) / (ONE as int);
    if h < 1 {
        1
    } else {
        h
    }
}

/// Everything `Camera::new` derives from a configuration.
pub open spec fn spec_camera(args: CameraArgs) -> Camera {
    let ih = spec_image_height(args);
    let wfp = args.image_width * (ONE as int);
    let hfp = ih * (ONE as int);
    let viewport_height = fmul(fmul(131072, args.tan_half_fov as int), args.focus_distance as int);
    let viewport_width = fmul(viewport_height, fdiv(wfp, hfp));
    let w = vunit(vsub(args.lookfrom, args.lookat));
    let u = vunit(vcross(args.up, w));
    let v = vcross(w, u);
    let viewport_u = vscale(u, viewport_width);
    let viewport_v = vscale(vneg(v), viewport_height);
    let pixel_delta_u = vdivs(viewport_u, wfp);
    let pixel_delta_v = vdivs(viewport_v, hfp);
    let defocus_radius = fmul(args.tan_half_defocus as int, args.focus_distance as int);
    let upper_left = vsub(
        vsub(
            vsub(args.lookfrom, vscale(w, args.focus_distance as int)),
            vscale(viewport_u, HALF as int),
        ),
        vscale(viewport_v, HALF as int),
    );
    Camera {
        image_width: args.image_width,
        image_height: ih as u32,
        origin: args.lookfrom,
        pixel_00_location: vadd(upper_left, vscale(vadd(pixel_delta_u, pixel_delta_v), HALF as int)),
        pixel_delta_u,
        pixel_delta_v,
        defocus_disk_u: vscale(u, defocus_radius),
        defocus_disk_v: vscale(v, defocus_radius),
        tan_half_defocus: args.tan_half_defocus,
        samples_per_pixel: args.samples_per_pixel,
        max_depth: args.max_depth,
    }
}

/// The ray a deterministic camera (one sample per pixel, no defocus)
/// casts through the center of a pixel.
pub open spec fn spec_det_ray(cam: Camera, row: u32, column: u32) -> Ray {
    spec_get_ray(cam, row, column, 0, 0, vzero())
}

/// The ray through pixel `(row, column)`, jittered by `(ju, jv)` along
/// the pixel deltas, with its origin jittered onto the defocus disk by
/// `lens` when the lens is enabled.
pub open spec fn spec_get_ray(cam: Camera, row: u32, column: u32, ju: int, jv: int, lens: Vec3) -> Ray {
    let pixel_sample = vadd(
        vadd(cam.pixel_00_location, vscale(cam.pixel_delta_v, fadd(row * (ONE as int), jv))),
        vscale(cam.pixel_delta_u, fadd(column * (ONE as int), ju)),
    );
    let origin = if cam.tan_half_defocus > 0 {
        vadd(
            vadd(cam.origin, vscale(cam.defocus_disk_u, lens.x as int)),
            vscale(cam.defocus_disk_v, lens.y as int),
        )
    } else {
        cam.origin
    };
    Ray { orig: origin, dir: vsub(pixel_sample, origin) }
}

/// The distance window of a shading query: from the shadow-acne guard
/// out to the largest representable distance.
pub open spec fn shade_window() -> Interval {
    Interval { min: T_MIN, max: i64::MAX }
}

/// The background gradient a missing ray returns: white blended toward
/// sky blue by the normalized direction's upward component.
pub open spec fn spec_background(ray: Ray) -> Color {
    let unit_dir = vunit(ray.dir);
    let t = fmul(HALF as int, fadd(unit_dir.y as int, ONE as int));
    vadd(vscale(spec_white(), fsub(ONE as int, t)), vscale(spec_skyblue(), t))
}

pub open spec fn spec_white() -> Color {
    Vec3 { x: 65536, y: 65536, z: 65536 }
}

pub open spec fn spec_skyblue() -> Color {
    Vec3 { x: 32768, y: 45875, z: 65536 }
}

/// The random draws of one shading path are admissible: each unit-vector
/// draw is a value the sampler can produce and each coin lies in
/// `[0, ONE)`.
pub open spec fn spec_draws_admissible(draws: Seq<(Vec3, int)>) -> bool {
    forall|i: int|
        0 <= i < draws.len() ==> valid_unit_sample(#[trigger] draws[i].0) && 0 <= draws[i].1 < ONE
            as int
}

/// The radiance a ray evaluates to under an explicit sequence of random
/// draws, one per bounce: black once the depth budget is spent; the
/// background gradient on a miss; on a hit, black when the material
/// absorbs the bounce's draw, else the attenuation times the scattered
/// ray's radiance under the remaining draws. (A path outrunning the given
/// draws goes black.)
pub open spec fn spec_eval_radiance(
    depth: int,
    ray: Ray,
    objs: Seq<Hittable>,
    draws: Seq<(Vec3, int)>,
) -> Color
    decreases depth,
{
    if depth <= 0 {
        vzero()
    } else {
        match spec_scene_hit(objs, ray, shade_window()) {
            None => spec_background(ray),
            Some(rec) => {
                if draws.len() == 0 {
                    vzero()
                } else {
                    match spec_scatter(rec.material, ray, rec, draws[0].0, draws[0].1) {
                        None => vzero(),
                        Some(pair) => vmul(
                            pair.0,
                            spec_eval_radiance(depth - 1, pair.1, objs, draws.drop_first()),
                        ),
                    }
                }
            },
        }
    }
}

/// Everything one pixel sample can be: the radiance of the pixel's camera
/// ray for some jitters of at most half a pixel and some lens point
/// inside the unit disk.
pub open spec fn spec_pixel_sample_ok(
    cam: Camera,
    objs: Seq<Hittable>,
    row: u32,
    column: u32,
    s: Color,
) -> bool {
    exists|ju: int, jv: int, lens: Vec3, draws: Seq<(Vec3, int)>|
        #![trigger spec_get_ray(cam, row, column, ju, jv, lens), spec_draws_admissible(draws)]
        -(HALF as int) <= ju <= HALF as int && -(HALF as int) <= jv <= HALF as int && vlensq(lens)
            < ONE as int && lens.z == 0 && spec_draws_admissible(draws) && s == spec_eval_radiance(
            cam.max_depth as int,
            spec_get_ray(cam, row, column, ju, jv, lens),
            objs,
            draws,
        )
}

/// Everything a finished pixel can be: the saturating sum of
/// `samples_per_pixel` radiance samples, each from an admissible camera
/// ray, divided by the sample count.
pub open spec fn spec_pixel_ok(
    cam: Camera,
    objs: Seq<Hittable>,
    row: u32,
    column: u32,
    pix: Color,
) -> bool {
    exists|samples: Seq<Color>|
        #![trigger vsum(samples)]
        samples.len() == cam.samples_per_pixel as int && (forall|i: int|
            0 <= i < samples.len() ==> spec_pixel_sample_ok(
                cam,
                objs,
                row,
                column,
                #[trigger] samples[i],
            )) && pix == vdivs(vsum(samples), cam.samples_per_pixel as int * ONE as int)
}

impl Camera {
    /// Derive the camera from a configuration. The aspect ratio must be
    /// positive and the derived height representable; spatial degeneracies
    /// (coincident `lookfrom` and `lookat`, an `up` parallel to the view)
    /// are the caller's contract and here produce zero basis vectors
    /// rather than a failure.
    pub fn new(args: CameraArgs) -> (r: Self)
        requires
            args.aspect_ratio > 0,
            args.image_width >= 1,
            spec_image_height(args) <= u32::MAX,
        ensures
            r == spec_camera(args),
    {
        let wfp: i64 = (args.image_width as i64) * 65536;
        let q = div_fp(wfp, args.aspect_ratio);
        proof {
            vstd::arithmetic::div_mod::lemma_div_pos_is_pos(
                (wfp as int) * (ONE as int),
                args.aspect_ratio as int,
            );
        }
        let h64: i64 = (((q as u64) + 32768) / 65536) as i64;
        let image_height: u32 = if h64 < 1 {
            1
        } else {
            h64 as u32
        };
        let hfp: i64 = (image_height as i64) * 65536;

        let viewport_height = mul_fp(mul_fp(131072, args.tan_half_fov), args.focus_distance);
        let viewport_width = mul_fp(viewport_height, div_fp(wfp, hfp));

        let w = args.lookfrom.sub(args.lookat).unit_vector();
        let u = args.up.cross(w).unit_vector();
        let v = w.cross(u);

        let viewport_u = u.scale(viewport_width);
        let viewport_v = v.neg().scale(viewport_height);

        let pixel_delta_u = viewport_u.div_scalar(wfp);
        let pixel_delta_v = viewport_v.div_scalar(hfp);

        let defocus_radius = mul_fp(args.tan_half_defocus, args.focus_distance);
        let defocus_disk_u = u.scale(defocus_radius);
        let defocus_disk_v = v.scale(defocus_radius);

        let viewport_upper_left = args
            .lookfrom
            .sub(w.scale(args.focus_distance))
            .sub(viewport_u.scale(HALF))
            .sub(viewport_v.scale(HALF));
        let pixel_00_location = viewport_upper_left.add(
            pixel_delta_u.add(pixel_delta_v).scale(HALF),
        );

        Camera {
            image_width: args.image_width,
            image_height,
            origin: args.lookfrom,
            pixel_00_location,
            pixel_delta_u,
            pixel_delta_v,
            defocus_disk_u,
            defocus_disk_v,
            tan_half_defocus: args.tan_half_defocus,
            samples_per_pixel: args.samples_per_pixel,
            max_depth: args.max_depth,
        }
    }

    /// The ray through pixel `(row, column)` for the given jitters: the
    /// sampling is the caller's, the geometry exact.
    pub fn get_ray(&self, row: u32, column: u32, jitter_u: i64, jitter_v: i64, lens: Vec3) -> (r:
        Ray)
        ensures
            r == spec_get_ray(*self, row, column, jitter_u as int, jitter_v as int, lens),
    {
        let row_fp = add_fp((row as i64) * 65536, jitter_v);
        let col_fp = add_fp((column as i64) * 65536, jitter_u);
        let pixel_sample = self
            .pixel_00_location
            .add(self.pixel_delta_v.scale(row_fp))
            .add(self.pixel_delta_u.scale(col_fp));
        let origin = if self.tan_half_defocus > 0 {
            self
                .origin
                .add(self.defocus_disk_u.scale(lens.x))
                .add(self.defocus_disk_v.scale(lens.y))
        } else {
            self.origin
        };
        let direction = pixel_sample.sub(origin);
        Ray { orig: origin, dir: direction }
    }

    /// Draw one camera ray for a pixel: jittered inside the pixel when
    /// more than one sample is taken, through the center otherwise, with
    /// the origin jittered onto the defocus disk when the lens is enabled.
    /// A deterministic camera yields exactly the center ray; whatever the
    /// draws, the result is the pixel's ray for some jitters of at most
    /// half a pixel and some lens point inside the unit disk.
    pub fn sample_ray(&self, row: u32, column: u32, rng: &mut RandomSource) -> (r: Ray)
        ensures
            self.samples_per_pixel == 1 && self.tan_half_defocus <= 0 ==> r == spec_det_ray(
                *self,
                row,
                column,
            ),
            exists|ju: int, jv: int, lens: Vec3|
                -(HALF as int) <= ju <= HALF as int && -(HALF as int) <= jv <= HALF as int
                    && vlensq(lens) < ONE as int && lens.z == 0 && r == #[trigger] spec_get_ray(
                    *self,
                    row,
                    column,
                    ju,
                    jv,
                    lens,
                ),
    {
        let (jitter_u, jitter_v): (i64, i64) = if self.samples_per_pixel == 1 {
            (0, 0)
        } else {
            (rng.next_fp(-HALF, HALF + 1), rng.next_fp(-HALF, HALF + 1))
        };
        let lens = if self.tan_half_defocus > 0 {
            Vec3::random_in_unit_circle(rng)
        } else {
            Vec3::new(0, 0, 0)
        };
        let r = self.get_ray(row, column, jitter_u, jitter_v, lens);
        proof {
            if self.tan_half_defocus <= 0 {
                crate::fixed::lemma_fmul_zero(0);
                assert(vlensq(lens) == 0);
            }
            assert(r == spec_get_ray(
                *self,
                row,
                column,
                jitter_u as int,
                jitter_v as int,
                lens,
            ));
        }
        r
    }

    /// The radiance along a ray: black once the depth budget is spent;
    /// on a hit, the material's attenuation times the scattered ray's
    /// radiance (black when absorbed); on a miss, the background gradient.
    #[verifier::rlimit(60)]
    pub fn ray_color(depth: u32, ray: &Ray, world: &HittableList, rng: &mut RandomSource) -> (r:
        Color)
        ensures
            depth == 0 ==> r == vzero(),
            depth > 0 && spec_scene_hit(world.objects(), *ray, shade_window()) is None ==> r
                == spec_background(*ray),
            depth == 1 && spec_scene_hit(world.objects(), *ray, shade_window()) is Some ==> r
                == vzero(),
            exists|draws: Seq<(Vec3, int)>|
                #[trigger] spec_draws_admissible(draws) && r == spec_eval_radiance(
                    depth as int,
                    *ray,
                    world.objects(),
                    draws,
                ),
        decreases depth,
    {
        if depth == 0 {
            proof {
                let ghost none: Seq<(Vec3, int)> = Seq::empty();
                assert(spec_draws_admissible(none) && vzero() == spec_eval_radiance(
                    depth as int,
                    *ray,
                    world.objects(),
                    none,
                ));
            }
            return Vec3::new(0, 0, 0);
        }
        if let Some(hit_record) = world.hit(ray, Interval::new(T_MIN, i64::MAX)) {
            let rnd_unit = Vec3::random_unit_vector(rng);
            let coin = rng.next_fp(0, ONE);
            if let Some((attenuation, scattered_ray)) = hit_record.material.scatter(
                ray,
                &hit_record,
                rnd_unit,
                coin,
            ) {
                let bounced = Self::ray_color(depth - 1, &scattered_ray, world, rng);
                let out = attenuation.mul(bounced);
                proof {
                    if depth == 1 {
                        lemma_vmul_zero(attenuation);
                    }
                    let ghost objs = world.objects();
                    let ghost sub = choose|d: Seq<(Vec3, int)>|
                        spec_draws_admissible(d) && bounced == spec_eval_radiance(
                            (depth - 1) as int,
                            scattered_ray,
                            objs,
                            d,
                        );
                    let ghost draws = seq![(rnd_unit, coin as int)] + sub;
                    assert(draws.drop_first() =~= sub);
                    assert(draws[0] == (rnd_unit, coin as int));
                    assert(spec_draws_admissible(draws)) by {
                        assert(forall|i: int|
                            1 <= i < draws.len() ==> draws[i] == sub[i - 1]);
                    }
                    assert(out == spec_eval_radiance(depth as int, *ray, objs, draws));
                }
                return out;
            } else {
                proof {
                    let ghost objs = world.objects();
                    let ghost draws = seq![(rnd_unit, coin as int)];
                    assert(spec_draws_admissible(draws));
                    assert(vzero() == spec_eval_radiance(depth as int, *ray, objs, draws));
                }
                return Vec3::new(0, 0, 0);
            }
        }
        proof {
            let ghost none: Seq<(Vec3, int)> = Seq::empty();
            assert(spec_draws_admissible(none));
            assert(spec_eval_radiance(depth as int, *ray, world.objects(), none)
                == spec_background(*ray));
        }
        let unit_dir = ray.dir.unit_vector();
        let t = mul_fp(HALF, add_fp(unit_dir.y, ONE));
        Vec3::new(65536, 65536, 65536).scale(sub_fp(ONE, t)).add(
            Vec3::new(32768, 45875, 65536).scale(t),
        )
    }

    /// Average `samples_per_pixel` radiance samples for one pixel. When
    /// the camera is deterministic and the center ray misses everything,
    /// the pixel is exactly the background gradient; when it is
    /// deterministic with a depth budget of one and the center ray hits a
    /// surface, the pixel is exactly black.
    pub fn sample_pixel(&self, world: &HittableList, row: u32, column: u32, rng: &mut RandomSource)
        -> (c: Color)
        ensures
            spec_det_miss(*self, world.objects(), row, column) ==> c == spec_background(
                spec_det_ray(*self, row, column),
            ),
            spec_det_hit_once(*self, world.objects(), row, column) ==> c == vzero(),
            spec_pixel_ok(*self, world.objects(), row, column, c),
    {
        let ghost det = spec_det_miss(*self, world.objects(), row, column);
        let ghost det_hit = spec_det_hit_once(*self, world.objects(), row, column);
        let mut color = Vec3::new(0, 0, 0);
        let mut s: u32 = 0;
        let ghost mut samples: Seq<Color> = Seq::empty();
        while s < self.samples_per_pixel
            invariant
                s <= self.samples_per_pixel,
                det ==> spec_det_miss(*self, world.objects(), row, column),
                det_hit ==> spec_det_hit_once(*self, world.objects(), row, column),
                (det || det_hit) && s == 0 ==> color == vzero(),
                det && s >= 1 ==> color == spec_background(spec_det_ray(*self, row, column)),
                det_hit && s >= 1 ==> color == vzero(),
                samples.len() == s as int,
                color == vsum(samples),
                forall|i: int|
                    0 <= i < samples.len() ==> spec_pixel_sample_ok(
                        *self,
                        world.objects(),
                        row,
                        column,
                        #[trigger] samples[i],
                    ),
            decreases self.samples_per_pixel - s,
        {
            let ray = self.sample_ray(row, column, rng);
            let sample = Self::ray_color(self.max_depth, &ray, world, rng);
            proof {
                if (det || det_hit) && s == 0 {
                    lemma_vadd_zero(sample);
                }
                let (ju, jv, lens) = choose|ju: int, jv: int, lens: Vec3|
                    -(HALF as int) <= ju <= HALF as int && -(HALF as int) <= jv <= HALF as int
                        && vlensq(lens) < ONE as int && lens.z == 0 && ray == spec_get_ray(
                        *self,
                        row,
                        column,
                        ju,
                        jv,
                        lens,
                    );
                let ghost draws = choose|d: Seq<(Vec3, int)>|
                    spec_draws_admissible(d) && sample == spec_eval_radiance(
                        self.max_depth as int,
                        ray,
                        world.objects(),
                        d,
                    );
                assert(spec_draws_admissible(draws) && sample == spec_eval_radiance(
                    self.max_depth as int,
                    spec_get_ray(*self, row, column, ju, jv, lens),
                    world.objects(),
                    draws,
                ));
                assert(spec_pixel_sample_ok(*self, world.objects(), row, column, sample));
                assert(samples.push(sample).drop_last() =~= samples);
                assert(samples.push(sample).last() == sample);
                samples = samples.push(sample);
            }
            color = color.add(sample);
            s = s + 1;
        }
        let spp_fp: i64 = (self.samples_per_pixel as i64) * 65536;
        let out = color.div_scalar(spp_fp);
        proof {
            if det || det_hit {
                lemma_vdivs_one(color);
            }
            assert(out == vdivs(vsum(samples), self.samples_per_pixel as int * (ONE as int)));
            assert(spec_pixel_ok(*self, world.objects(), row, column, out));
        }
        out
    }

    /// Render one row of pixels, with a generator seeded from the row so
    /// that rows are independent and the whole image a function of the
    /// seed alone.
    pub fn render_row(&self, world: &HittableList, row: u32, seed: u64) -> (r: Vec<Color>)
        ensures
            r@.len() == self.image_width as int,
            forall|c: int|
                0 <= c < r@.len() && spec_det_miss(*self, world.objects(), row, c as u32)
                    ==> #[trigger] r@[c] == spec_background(spec_det_ray(*self, row, c as u32)),
            forall|c: int|
                0 <= c < r@.len() ==> spec_pixel_ok(
                    *self,
                    world.objects(),
                    row,
                    c as u32,
                    #[trigger] r@[c],
                ),
    {
        let mut rng = RandomSource::from_seed(seed.wrapping_add(row as u64));
        let mut row_colors: Vec<Color> = Vec::new();
        let mut column: u32 = 0;
        while column < self.image_width
            invariant
                column <= self.image_width,
                row_colors@.len() == column as int,
                forall|c: int|
                    0 <= c < column as int && spec_det_miss(*self, world.objects(), row, c as u32)
                        ==> #[trigger] row_colors@[c] == spec_background(
                        spec_det_ray(*self, row, c as u32),
                    ),
                forall|c: int|
                    0 <= c < column as int ==> spec_pixel_ok(
                        *self,
                        world.objects(),
                        row,
                        c as u32,
                        #[trigger] row_colors@[c],
                    ),
            decreases self.image_width - column,
        {
            let pixel = self.sample_pixel(world, row, column, &mut rng);
            row_colors.push(pixel);
            column = column + 1;
        }
        row_colors
    }

    /// Compute all pixels, rows in parallel.
    ///
    /// Relies on rayon's parallel iterator over the row range: `flat_map_iter`
    /// keeps row order and `collect` concatenates, so the result is the
    /// concatenation of the verified `render_row` over rows `0..image_height`,
    /// and each clause below restates one of `render_row`'s postconditions
    /// over that concatenation.
    #[verifier::external_body]
    fn par_render_pixels(&self, world: &HittableList, seed: u64) -> (r: Vec<Color>)
        ensures
            r@.len() == self.image_height as int * self.image_width as int,
            self.image_width >= 1 ==> forall|i: int|
                0 <= i < r@.len() && spec_det_miss(
                    *self,
                    world.objects(),
                    (i / self.image_width as int) as u32,
                    (i % self.image_width as int) as u32,
                ) ==> #[trigger] r@[i] == spec_background(
                    spec_det_ray(
                        *self,
                        (i / self.image_width as int) as u32,
                        (i % self.image_width as int) as u32,
                    ),
                ),
            self.image_width >= 1 ==> forall|i: int|
                0 <= i < r@.len() ==> spec_pixel_ok(
                    *self,
                    world.objects(),
                    (i / self.image_width as int) as u32,
                    (i % self.image_width as int) as u32,
                    #[trigger] r@[i],
                ),
    {
        (0..self.image_height)
            .into_par_iter()
            .flat_map_iter(|row| self.render_row(world, row, seed))
            .collect()
    }

    /// Render the scene to the plain-text pixel stream: the format tag,
    /// the dimensions and the channel maximum, then one gamma-corrected
    /// byte triple per pixel, row-major. The image is a function of the
    /// seed; a deterministic camera over an empty scene yields exactly the
    /// background gradient at every pixel.
    pub fn render(&self, world: &HittableList, seed: u64) -> (s: String)
        requires
            self.image_width >= 1,
        ensures
            exists|pix: Seq<Color>|
                pix.len() == self.image_height as int * self.image_width as int && s@
                    == spec_ppm_text(self.image_width as int, self.image_height as int, pix) && (
                forall|i: int|
                    0 <= i < pix.len() ==> spec_pixel_ok(
                        *self,
                        world.objects(),
                        (i / self.image_width as int) as u32,
                        (i % self.image_width as int) as u32,
                        #[trigger] pix[i],
                    )),
            world.objects().len() == 0 && self.samples_per_pixel == 1 && self.tan_half_defocus
                <= 0 && self.max_depth >= 1 ==> s@ == spec_ppm_text(
                self.image_width as int,
                self.image_height as int,
                spec_det_background_grid(*self),
            ),
    {
        let pixels = self.par_render_pixels(world, seed);
        let mut s = String::from_str("P3\n");
        proof {
            reveal_strlit("P3\n");
            assert(("P3\n")@ =~= seq!['P', '3', '\n']);
            reveal_strlit(" ");
            assert((" ")@ =~= seq![' ']);
            reveal_strlit("\n");
            assert(("\n")@ =~= seq!['\n']);
        }
        let sw = u32_string(self.image_width);
        s.append(sw.as_str());
        s.append(" ");
        let sh = u32_string(self.image_height);
        s.append(sh.as_str());
        s.append("\n");
        let sm = u32_string(255);
        s.append(sm.as_str());
        s.append("\n");
        proof {
            assert(s@ =~= spec_ppm_header(self.image_width as int, self.image_height as int));
            assert(pixels@.take(0) =~= Seq::<Color>::empty());
        }
        let mut i: usize = 0;
        while i < pixels.len()
            invariant
                i <= pixels.len(),
                s@ == spec_ppm_header(self.image_width as int, self.image_height as int)
                    + spec_ppm_body(pixels@.take(i as int)),
            decreases pixels.len() - i,
        {
            let line = pixels[i].to_bytes_string();
            s.append(line.as_str());
            proof {
                reveal_strlit("\n");
                assert(("\n")@ =~= seq!['\n']);
            }
            s.append("\n");
            proof {
                assert(pixels@.take(i as int + 1).drop_last() =~= pixels@.take(i as int));
                assert(pixels@.take(i as int + 1).last() == pixels@[i as int]);
            }
            i = i + 1;
        }
        proof {
            assert(pixels@.take(pixels@.len() as int) =~= pixels@);
            assert(s@ == spec_ppm_text(
                self.image_width as int,
                self.image_height as int,
                pixels@,
            ));
            if world.objects().len() == 0 && self.samples_per_pixel == 1 && self.tan_half_defocus
                <= 0 && self.max_depth >= 1 {
                lemma_det_grid(*self, world.objects(), pixels@);
                assert(pixels@ =~= spec_det_background_grid(*self));
            }
        }
        s
    }
}

impl Default for Camera {
    /// The camera of the default configuration.
    fn default() -> (r: Self)
        ensures
            r == spec_camera(spec_default_args()),
    {
        proof {
            lemma_default_height();
        }
        Camera::new(CameraArgs::default())
    }
}

/// The default configuration's 400 columns at 16:9 derive 225 rows.
proof fn lemma_default_height()
    ensures
        spec_image_height(spec_default_args()) == 225,
{
    assert(26214400int * 65536 == 1717986918400) by (nonlinear_arith);
    assert(14745656int * 116508 + 29152 == 1717986918400) by (nonlinear_arith);
    vstd::arithmetic::div_mod::lemma_fundamental_div_mod_converse_div(
        1717986918400,
        116508,
        14745656,
        29152,
    );
    assert(tdiv(1717986918400, 116508) == 14745656);
    assert(225int * 65536 + 32824 == 14778424) by (nonlinear_arith);
    vstd::arithmetic::div_mod::lemma_fundamental_div_mod_converse_div(14778424, 65536, 225, 32824);
}

/// The camera is deterministic for this pixel and the center ray misses
/// every surface: one sample, no lens, depth budget left, and no hit in
/// the shading window.
pub open spec fn spec_det_miss(cam: Camera, objs: Seq<Hittable>, row: u32, column: u32) -> bool {
    cam.samples_per_pixel == 1 && cam.tan_half_defocus <= 0 && cam.max_depth >= 1
        && spec_scene_hit(objs, spec_det_ray(cam, row, column), shade_window()) is None
}

/// The camera is deterministic for this pixel with a depth budget of
/// exactly one, and the center ray hits a surface: whatever the material
/// does, the one bounce has no budget left and the sample is black.
pub open spec fn spec_det_hit_once(cam: Camera, objs: Seq<Hittable>, row: u32, column: u32) -> bool {
    cam.samples_per_pixel == 1 && cam.tan_half_defocus <= 0 && cam.max_depth == 1
        && spec_scene_hit(objs, spec_det_ray(cam, row, column), shade_window()) is Some
}

/// The pixel grid of the deterministic camera over the empty scene:
/// every pixel is the background gradient through its center ray.
pub open spec fn spec_det_background_grid(cam: Camera) -> Seq<Color> {
    Seq::new(
        (cam.image_height as int * cam.image_width as int) as nat,
        |i: int|
            spec_background(
                spec_det_ray(
                    cam,
                    (i / cam.image_width as int) as u32,
                    (i % cam.image_width as int) as u32,
                ),
            ),
    )
}

/// Over an empty scene, a deterministic camera's pixel buffer is exactly
/// the background grid.
proof fn lemma_det_grid(cam: Camera, objs: Seq<Hittable>, pix: Seq<Color>)
    requires
        objs.len() == 0,
        cam.samples_per_pixel == 1,
        cam.tan_half_defocus <= 0,
        cam.max_depth >= 1,
        cam.image_width >= 1,
        pix.len() == cam.image_height as int * cam.image_width as int,
        forall|i: int|
            0 <= i < pix.len() && spec_det_miss(
                cam,
                objs,
                (i / cam.image_width as int) as u32,
                (i % cam.image_width as int) as u32,
            ) ==> #[trigger] pix[i] == spec_background(
                spec_det_ray(
                    cam,
                    (i / cam.image_width as int) as u32,
                    (i % cam.image_width as int) as u32,
                ),
            ),
    ensures
        pix =~= spec_det_background_grid(cam),
{
    assert forall|i: int| 0 <= i < pix.len() implies pix[i] == spec_det_background_grid(cam)[i] by {
        assert(spec_det_miss(
            cam,
            objs,
            (i / cam.image_width as int) as u32,
            (i % cam.image_width as int) as u32,
        ));
    }
}

/// The plain-text image header: the format tag, the dimensions, and the
/// channel maximum.
pub open spec fn spec_ppm_header(w: int, h: int) -> Seq<char> {
    seq!['P', '3', '\n'] + dec_str(w) + seq![' '] + dec_str(h) + seq!['\n'] + dec_str(255)
        + seq!['\n']
}

/// The pixel lines: one byte triple and newline per pixel, in order.
pub open spec fn spec_ppm_body(pix: Seq<Color>) -> Seq<char>
    decreases pix.len(),
{
    if pix.len() == 0 {
        Seq::empty()
    } else {
        spec_ppm_body(pix.drop_last()) + spec_byte_triple(pix.last()) + seq!['\n']
    }
}

/// The whole plain-text image.
pub open spec fn spec_ppm_text(w: int, h: int, pix: Seq<Color>) -> Seq<char> {
    spec_ppm_header(w, h) + spec_ppm_body(pix)
}

} // verus!
