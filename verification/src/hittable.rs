//! The surface model: hit records, the closed set of surface variants,
//! and the composite scene with nearest-hit resolution.

use vstd::prelude::*;

use crate::fixed::{fsub, fadd, fsqrt, lemma_fsqrt_bounds, lemma_fdiv_mono};
use crate::geometries::plane::{Plane, spec_plane_hit};
use crate::geometries::sphere::{Sphere, spec_sphere_hit};
use crate::interval::Interval;
use crate::materials::Material;
use crate::ray::Ray;
use crate::vec::{Vec3, vdot, vneg, vsub, vlensq, lemma_vlensq_nonneg};

verus! {

/// The local data of a successful intersection. The stored normal always
/// faces against the incoming ray; `is_front_face` records whether the ray
/// met the side the geometric normal points toward.
#[derive(Clone, Copy, Debug, PartialEq, Eq, Structural)]
pub struct HitRecord {
    pub p: Vec3,
    pub normal: Vec3,
    pub t: i64,
    pub is_front_face: bool,
    pub material: Material,
}

/// Re-orient an outward geometric normal against the incoming ray:
/// the front face is met when the ray runs against the outward normal.
pub open spec fn spec_face_normal(ray: Ray, outward_normal: Vec3) -> (bool, Vec3) {
    let is_front_face = vdot(ray.dir, outward_normal) < 0;
    (
        is_front_face,
        if is_front_face {
            outward_normal
        } else {
            vneg(outward_normal)
        },
    )
}

/// The record built from a hit point, the outward geometric normal, the
/// hit parameter and the surface's material.
pub open spec fn spec_hit_record(
    p: Vec3,
    outward_normal: Vec3,
    t: i64,
    ray: Ray,
    material: Material,
) -> HitRecord {
    let (is_front_face, normal) = spec_face_normal(ray, outward_normal);
    HitRecord { p, normal, t, is_front_face, material }
}

impl HitRecord {
    pub fn new(p: Vec3, outward_normal: Vec3, t: i64, ray: &Ray, material: Material) -> (r: Self)
        ensures
            r == spec_hit_record(p, outward_normal, t, *ray, material),
    {
        let (is_front_face, normal) = Self::get_face_normal(ray, outward_normal);
        HitRecord { p, normal, t, is_front_face, material }
    }

    fn get_face_normal(ray: &Ray, outward_normal: Vec3) -> (r: (bool, Vec3))
        ensures
            r == spec_face_normal(*ray, outward_normal),
    {
        let is_front_face = ray.dir.dot(outward_normal) < 0;
        let normal = if is_front_face {
            outward_normal
        } else {
            outward_normal.neg()
        };
        (is_front_face, normal)
    }
}

/// The closed set of surfaces the scene can hold.
#[derive(Clone, Copy, Debug, PartialEq, Eq, Structural)]
pub enum Hittable {
    Sphere(Sphere),
    Plane(Plane),
}

/// What a single surface's intersection test returns.
pub open spec fn spec_object_hit(obj: Hittable, ray: Ray, range: Interval) -> Option<HitRecord> {
    match obj {
        Hittable::Sphere(s) => spec_sphere_hit(s, ray, range),
        Hittable::Plane(p) => spec_plane_hit(p, ray, range),
    }
}

impl Hittable {
    /// The nearest valid intersection of this surface with `ray` inside
    /// `range`, or `None`.
    pub fn hit(&self, ray: &Ray, range: Interval) -> (r: Option<HitRecord>)
        ensures
            r == spec_object_hit(*self, *ray, range),
    {
        match self {
            Hittable::Sphere(s) => s.hit(ray, range),
            Hittable::Plane(p) => p.hit(ray, range),
        }
    }
}

/// The nearest-hit fold over the remaining surfaces: each surface is
/// queried with the window shrunk to the closest hit found so far, and a
/// hit inside that window replaces the best record.
pub open spec fn spec_scene_hit_from(
    objs: Seq<Hittable>,
    ray: Ray,
    rmin: i64,
    closest: i64,
    best: Option<HitRecord>,
) -> Option<HitRecord>
    decreases objs.len(),
{
    if objs.len() == 0 {
        best
    } else {
        match spec_object_hit(objs[0], ray, Interval { min: rmin, max: closest }) {
            Some(rec) => spec_scene_hit_from(objs.drop_first(), ray, rmin, rec.t, Some(rec)),
            None => spec_scene_hit_from(objs.drop_first(), ray, rmin, closest, best),
        }
    }
}

/// What the composite scene's intersection query returns.
pub open spec fn spec_scene_hit(objs: Seq<Hittable>, ray: Ray, range: Interval) -> Option<
    HitRecord,
> {
    spec_scene_hit_from(objs, ray, range.min, range.max, None)
}

/// An insertion-ordered collection of surfaces, queried as one composite
/// surface resolving the nearest valid hit.
#[derive(Debug)]
pub struct HittableList {
    pub objects: Vec<Hittable>,
}

impl HittableList {
    /// The surfaces the scene holds, in insertion order.
    pub open spec fn objects(&self) -> Seq<Hittable> {
        self.objects@
    }

    pub fn new() -> (r: Self)
        ensures
            r.objects() == Seq::<Hittable>::empty(),
    {
        let r = HittableList { objects: Vec::new() };
        proof {
            assert(r.objects() =~= Seq::<Hittable>::empty());
        }
        r
    }

    pub fn add(&mut self, object: Hittable)
        ensures
            final(self).objects() == old(self).objects().push(object),
    {
        self.objects.push(object);
    }

    /// The nearest valid hit of `ray` across all surfaces within `range`,
    /// or `None` when no surface intersects there.
    pub fn hit(&self, ray: &Ray, range: Interval) -> (r: Option<HitRecord>)
        ensures
            r == spec_scene_hit(self.objects(), *ray, range),
    {
        let mut closest_so_far = range.max;
        let mut hit_record: Option<HitRecord> = None;
        let mut i: usize = 0;
        proof {
            assert(self.objects@.skip(0) =~= self.objects@);
        }
        while i < self.objects.len()
            invariant
                i <= self.objects.len(),
                spec_scene_hit_from(
                    self.objects@.skip(i as int),
                    *ray,
                    range.min,
                    closest_so_far,
                    hit_record,
                ) == spec_scene_hit(self.objects(), *ray, range),
            decreases self.objects.len() - i,
        {
            proof {
                assert(self.objects@.skip(i as int)[0] == self.objects@[i as int]);
                assert(self.objects@.skip(i as int).drop_first() =~= self.objects@.skip(
                    i as int + 1,
                ));
            }
            let object = &self.objects[i];
            if let Some(record) = object.hit(ray, Interval::new(range.min, closest_so_far)) {
                closest_so_far = record.t;
                hit_record = Some(record);
            }
            i = i + 1;
        }
        proof {
            assert(self.objects@.skip(self.objects@.len() as int) =~= Seq::<Hittable>::empty());
        }
        hit_record
    }
}

/// A reported hit lies strictly inside the queried window.
pub proof fn lemma_object_hit_in_window(obj: Hittable, ray: Ray, range: Interval)
    requires
        spec_object_hit(obj, ray, range) is Some,
    ensures
        range.min < spec_object_hit(obj, ray, range)->Some_0.t < range.max,
{
    reveal(spec_sphere_hit);
}

/// Shrinking the window cannot bring a farther hit forward: a surface
/// that misses the narrow window has no wide-window hit nearer than the
/// narrow bound, and a narrow-window hit is no farther than the
/// wide-window one.
pub proof fn lemma_object_hit_window_shrink(obj: Hittable, ray: Ray, rmin: i64, b: i64, m: i64)
    requires
        b <= m,
    ensures
        (spec_object_hit(obj, ray, Interval { min: rmin, max: b }) is None && spec_object_hit(
            obj,
            ray,
            Interval { min: rmin, max: m },
        ) is Some) ==> spec_object_hit(obj, ray, Interval { min: rmin, max: m })->Some_0.t >= b,
        (spec_object_hit(obj, ray, Interval { min: rmin, max: b }) is Some && spec_object_hit(
            obj,
            ray,
            Interval { min: rmin, max: m },
        ) is Some) ==> spec_object_hit(obj, ray, Interval { min: rmin, max: b })->Some_0.t
            <= spec_object_hit(obj, ray, Interval { min: rmin, max: m })->Some_0.t,
{
    reveal(spec_sphere_hit);
    match obj {
        Hittable::Sphere(s) => {
            let a = vlensq(ray.dir);
            let h = vdot(ray.dir, vsub(s.center, ray.orig));
            let c = fsub(
                vlensq(vsub(s.center, ray.orig)),
                crate::fixed::fmul(s.radius as int, s.radius as int),
            );
            let disc = fsub(crate::fixed::fmul(h, h), crate::fixed::fmul(a, c));
            if disc >= 0 && a != 0 {
                lemma_vlensq_nonneg(ray.dir);
                lemma_fsqrt_bounds(disc);
                let sqrtd = fsqrt(disc);
                lemma_fdiv_mono(fsub(h, sqrtd), fadd(h, sqrtd), a);
            }
        },
        Hittable::Plane(p) => {},
    }
}

/// Once the fold holds a best record no farther than its window bound,
/// it returns a record no farther than that bound.
proof fn lemma_fold_shrink(objs: Seq<Hittable>, ray: Ray, rmin: i64, closest: i64, best: HitRecord)
    requires
        best.t <= closest,
    ensures
        spec_scene_hit_from(objs, ray, rmin, closest, Some(best)) is Some,
        spec_scene_hit_from(objs, ray, rmin, closest, Some(best))->Some_0.t <= closest,
    decreases objs.len(),
{
    if objs.len() != 0 {
        let w = Interval { min: rmin, max: closest };
        match spec_object_hit(objs[0], ray, w) {
            Some(rec) => {
                lemma_object_hit_in_window(objs[0], ray, w);
                lemma_fold_shrink(objs.drop_first(), ray, rmin, rec.t, rec);
            },
            None => {
                lemma_fold_shrink(objs.drop_first(), ray, rmin, closest, best);
            },
        }
    }
}

/// The fold's result is no farther than any one surface's own hit in the
/// wide window `m`, as long as the running state is consistent: the bound
/// never exceeds `m`, a missing best record means an unshrunk bound, and
/// a held best record sits exactly at the bound.
proof fn lemma_fold_nearest(
    objs: Seq<Hittable>,
    ray: Ray,
    rmin: i64,
    closest: i64,
    best: Option<HitRecord>,
    m: i64,
    i: int,
)
    requires
        0 <= i < objs.len(),
        closest <= m,
        best is None ==> closest == m,
        best is Some ==> best->Some_0.t == closest,
        spec_object_hit(objs[i], ray, Interval { min: rmin, max: m }) is Some,
    ensures
        spec_scene_hit_from(objs, ray, rmin, closest, best) is Some,
        spec_scene_hit_from(objs, ray, rmin, closest, best)->Some_0.t <= spec_object_hit(
            objs[i],
            ray,
            Interval { min: rmin, max: m },
        )->Some_0.t,
    decreases objs.len(),
{
    let w = Interval { min: rmin, max: closest };
    let wm = Interval { min: rmin, max: m };
    let rec_i = spec_object_hit(objs[i], ray, wm)->Some_0;
    lemma_object_hit_in_window(objs[i], ray, wm);
    if i == 0 {
        match spec_object_hit(objs[0], ray, w) {
            Some(rec0) => {
                lemma_object_hit_window_shrink(objs[0], ray, rmin, closest, m);
                lemma_object_hit_in_window(objs[0], ray, w);
                lemma_fold_shrink(objs.drop_first(), ray, rmin, rec0.t, rec0);
            },
            None => {
                lemma_object_hit_window_shrink(objs[0], ray, rmin, closest, m);
                match best {
                    Some(b) => {
                        lemma_fold_shrink(objs.drop_first(), ray, rmin, closest, b);
                    },
                    None => {
                        assert(false);
                    },
                }
            },
        }
    } else {
        match spec_object_hit(objs[0], ray, w) {
            Some(rec0) => {
                lemma_object_hit_in_window(objs[0], ray, w);
                lemma_fold_nearest(objs.drop_first(), ray, rmin, rec0.t, Some(rec0), m, i - 1);
            },
            None => {
                lemma_fold_nearest(objs.drop_first(), ray, rmin, closest, best, m, i - 1);
            },
        }
    }
}

/// The scene query resolves the globally nearest hit: whenever one of its
/// surfaces intersects the ray inside the window, the query returns a
/// record, and that record is no farther than the surface's own hit.
pub proof fn lemma_scene_hit_nearest(objs: Seq<Hittable>, ray: Ray, range: Interval, i: int)
    requires
        0 <= i < objs.len(),
        spec_object_hit(objs[i], ray, range) is Some,
    ensures
        spec_scene_hit(objs, ray, range) is Some,
        spec_scene_hit(objs, ray, range)->Some_0.t <= spec_object_hit(objs[i], ray, range)
            ->Some_0.t,
{
    assert(range == (Interval { min: range.min, max: range.max }));
    lemma_fold_nearest(objs, ray, range.min, range.max, None, range.max, i);
}

/// One more query against the window shrunk to the running result: what
/// an appended surface contributes after the others have folded.
pub open spec fn spec_fold_step(
    obj: Hittable,
    ray: Ray,
    rmin: i64,
    closest: i64,
    mid: Option<HitRecord>,
) -> Option<HitRecord> {
    match mid {
        Some(m) => match spec_object_hit(obj, ray, Interval { min: rmin, max: m.t }) {
            Some(rec) => Some(rec),
            None => Some(m),
        },
        None => match spec_object_hit(obj, ray, Interval { min: rmin, max: closest }) {
            Some(rec) => Some(rec),
            None => None::<HitRecord>,
        },
    }
}

/// The fold over an appended surface: the appended surface is queried
/// last, against the window shrunk to the result over the others.
#[verifier::rlimit(60)]
proof fn lemma_fold_push(
    objs: Seq<Hittable>,
    ray: Ray,
    rmin: i64,
    closest: i64,
    best: Option<HitRecord>,
    obj: Hittable,
)
    requires
        best is Some ==> best->Some_0.t == closest,
    ensures
        spec_scene_hit_from(objs.push(obj), ray, rmin, closest, best) == spec_fold_step(
            obj,
            ray,
            rmin,
            closest,
            spec_scene_hit_from(objs, ray, rmin, closest, best),
        ),
    decreases objs.len(),
{
    let w = Interval { min: rmin, max: closest };
    if objs.len() == 0 {
        assert(objs.push(obj).len() == 1);
        assert(objs.push(obj)[0] == obj);
        assert(objs.push(obj).drop_first() =~= Seq::<Hittable>::empty());
        assert(spec_scene_hit_from(objs, ray, rmin, closest, best) == best);
        if best is Some {
            assert((Interval { min: rmin, max: best->Some_0.t }) == (Interval {
                min: rmin,
                max: closest,
            }));
        }
        match spec_object_hit(obj, ray, w) {
            Some(rec) => {
                assert(spec_scene_hit_from(Seq::<Hittable>::empty(), ray, rmin, rec.t, Some(rec))
                    == Some(rec));
                assert(spec_scene_hit_from(objs.push(obj), ray, rmin, closest, best) == Some(rec));
            },
            None => {
                assert(spec_scene_hit_from(Seq::<Hittable>::empty(), ray, rmin, closest, best)
                    == best);
                assert(spec_scene_hit_from(objs.push(obj), ray, rmin, closest, best) == best);
            },
        }
    } else {
        assert(objs.push(obj)[0] == objs[0]);
        assert(objs.push(obj).drop_first() =~= objs.drop_first().push(obj));
        match spec_object_hit(objs[0], ray, w) {
            Some(rec0) => {
                lemma_object_hit_in_window(objs[0], ray, w);
                lemma_fold_push(objs.drop_first(), ray, rmin, rec0.t, Some(rec0), obj);
                lemma_fold_shrink(objs.drop_first(), ray, rmin, rec0.t, rec0);
                assert(spec_scene_hit_from(objs.push(obj), ray, rmin, closest, best)
                    == spec_scene_hit_from(objs.drop_first().push(obj), ray, rmin, rec0.t, Some(rec0)));
                assert(spec_scene_hit_from(objs, ray, rmin, closest, best)
                    == spec_scene_hit_from(objs.drop_first(), ray, rmin, rec0.t, Some(rec0)));
            },
            None => {
                lemma_fold_push(objs.drop_first(), ray, rmin, closest, best, obj);
                assert(spec_scene_hit_from(objs.push(obj), ray, rmin, closest, best)
                    == spec_scene_hit_from(objs.drop_first().push(obj), ray, rmin, closest, best));
                assert(spec_scene_hit_from(objs, ray, rmin, closest, best)
                    == spec_scene_hit_from(objs.drop_first(), ray, rmin, closest, best));
            },
        }
    }
}

/// Adding a surface that intersects no nearer than the scene's best hit
/// leaves the scene query's result unchanged.
pub proof fn lemma_scene_hit_add_farther(
    objs: Seq<Hittable>,
    ray: Ray,
    range: Interval,
    obj: Hittable,
)
    requires
        spec_scene_hit(objs, ray, range) is Some,
        spec_object_hit(
            obj,
            ray,
            Interval { min: range.min, max: spec_scene_hit(objs, ray, range)->Some_0.t },
        ) is None,
    ensures
        spec_scene_hit(objs.push(obj), ray, range) == spec_scene_hit(objs, ray, range),
{
    lemma_fold_push(objs, ray, range.min, range.max, None, obj);
}

impl Default for HittableList {
    fn default() -> (r: Self)
        ensures
            r.objects() == Seq::<Hittable>::empty(),
    {
        Self::new()
    }
}

} // verus!
