use raytracing::camera::T_MIN;
use raytracing::fixed::ONE;
use raytracing::geometries::plane::Plane;
use raytracing::geometries::sphere::Sphere;
use raytracing::hittable::{Hittable, HittableList};
use raytracing::interval::Interval;
use raytracing::materials::{Dielectric, Lambertian, Material, Metal};
use raytracing::ray::Ray;
use raytracing::vec::Vec3;

fn v(x: i64, y: i64, z: i64) -> Vec3 {
    Vec3::new(x * ONE, y * ONE, z * ONE)
}

fn gray() -> Material {
    Material::Lambertian(Lambertian::new(Vec3::new(ONE / 2, ONE / 2, ONE / 2)))
}

fn shade_window() -> Interval {
    Interval::new(T_MIN, i64::MAX)
}

#[test]
fn sphere_through_center_two_symmetric_roots() {
    let s = Sphere::new(v(0, 0, -2), ONE, gray());
    let ray = Ray::new(v(0, 0, 0), v(0, 0, -1));
    // the near root: one unit before the center
    let near = s.hit(&ray, shade_window()).expect("center ray must hit");
    assert_eq!(near.t, ONE);
    assert_eq!(near.p, v(0, 0, -1));
    assert_eq!(near.normal, v(0, 0, 1));
    assert!(near.is_front_face);
    // the far root, exposed by a window past the near one
    let far = s.hit(&ray, Interval::new(2 * ONE, 10 * ONE)).expect("far root in window");
    assert_eq!(far.t, 3 * ONE);
    // the two roots are symmetric about the center at distance two
    assert_eq!(near.t + far.t, 4 * ONE);
}

#[test]
fn sphere_missed_by_offset_ray() {
    let s = Sphere::new(v(0, 0, -2), ONE, gray());
    // perpendicular offset of three exceeds the radius of one
    let ray = Ray::new(v(0, 3, 0), v(0, 0, -1));
    assert!(s.hit(&ray, shade_window()).is_none());
}

#[test]
fn sphere_tangent_ray_single_root() {
    let s = Sphere::new(v(0, 0, -2), ONE, gray());
    // offset exactly one radius: the discriminant vanishes, both roots agree
    let ray = Ray::new(v(0, 1, 0), v(0, 0, -1));
    let rec = s.hit(&ray, shade_window()).expect("tangent ray grazes");
    assert_eq!(rec.t, 2 * ONE);
    // and no second root remains beyond it
    assert!(s.hit(&ray, Interval::new(rec.t + 1, i64::MAX)).is_none());
}

#[test]
fn plane_parallel_ray_never_hits() {
    let p = Plane::new(v(0, 1, 0), v(0, 1, 0), gray());
    // direction orthogonal to the normal: no hit from any origin
    assert!(p.hit(&Ray::new(v(0, 0, 0), v(1, 0, 0)), shade_window()).is_none());
    assert!(p.hit(&Ray::new(v(5, 9, -3), v(0, 0, -1)), shade_window()).is_none());
}

#[test]
fn plane_straight_down_hit() {
    let p = Plane::new(v(0, 1, 0), v(0, 1, 0), gray());
    let ray = Ray::new(v(0, 2, 0), v(0, -1, 0));
    let rec = p.hit(&ray, shade_window()).expect("downward ray meets plane");
    assert_eq!(rec.t, ONE);
    assert_eq!(rec.p, v(0, 1, 0));
    assert_eq!(rec.normal, v(0, 1, 0));
    assert!(rec.is_front_face);
}

#[test]
fn scene_returns_globally_nearest_hit() {
    let ray = Ray::new(v(0, 0, 0), v(0, 0, -1));
    let near = Hittable::Sphere(Sphere::new(v(0, 0, -2), ONE, gray()));
    let far = Hittable::Sphere(Sphere::new(v(0, 0, -6), ONE, gray()));

    let mut world = HittableList::new();
    world.add(far);
    world.add(near);
    let rec = world.hit(&ray, shade_window()).expect("both spheres on the ray");
    assert_eq!(rec.t, ONE);

    // insertion order does not change the winner
    let mut world2 = HittableList::new();
    world2.add(near);
    world2.add(far);
    let rec2 = world2.hit(&ray, shade_window()).expect("both spheres on the ray");
    assert_eq!(rec2.t, ONE);

    // adding a farther surface leaves the result unchanged
    let mut world3 = HittableList::new();
    world3.add(near);
    let before = world3.hit(&ray, shade_window()).expect("near sphere hit");
    world3.add(far);
    let after = world3.hit(&ray, shade_window()).expect("still hit");
    assert_eq!(before, after);
}

#[test]
fn empty_scene_has_no_hit() {
    let world = HittableList::new();
    assert!(world.hit(&Ray::new(v(0, 0, 0), v(0, 0, -1)), shade_window()).is_none());
}

#[test]
fn mirror_metal_reflects_straight_back() {
    let metal = Material::Metal(Metal::new(Vec3::new(ONE, ONE, ONE), 0));
    let mut world = HittableList::new();
    world.add(Hittable::Sphere(Sphere::new(v(0, 0, -2), ONE, metal)));
    let ray = Ray::new(v(0, 0, 0), v(0, 0, -1));
    let rec = world.hit(&ray, shade_window()).expect("head-on hit");
    assert_eq!(rec.normal, v(0, 0, 1));
    // the fuzz is zero, so the random draw must not matter
    let (attenuation, scattered) = rec
        .material
        .scatter(&ray, &rec, Vec3::new(777, -333, 55), 0)
        .expect("a mirror met head on never absorbs");
    assert_eq!(attenuation, Vec3::new(ONE, ONE, ONE));
    assert_eq!(scattered.dir, ray.dir.neg());
    assert_eq!(scattered.orig, rec.p);
}

#[test]
fn metal_clamps_fuzz_into_unit_range() {
    let m = Metal::new(Vec3::new(ONE, 0, 0), 3 * ONE);
    assert_eq!(m.fuzz, ONE);
    let kept = Metal::new(Vec3::new(ONE, 0, 0), ONE / 4);
    assert_eq!(kept.fuzz, ONE / 4);
    let floored = Metal::new(Vec3::new(ONE, 0, 0), -ONE);
    assert_eq!(floored.fuzz, 0);
}

#[test]
fn dielectric_never_absorbs() {
    let glass = Material::Dielectric(Dielectric::new(3 * ONE / 2));
    let mut world = HittableList::new();
    world.add(Hittable::Sphere(Sphere::new(v(0, 0, -2), ONE, glass)));
    let ray = Ray::new(v(0, 0, 0), v(0, 0, -1));
    let rec = world.hit(&ray, shade_window()).expect("hit");
    for coin in [0i64, ONE / 2, ONE - 1] {
        assert!(rec.material.scatter(&ray, &rec, Vec3::new(5, -5, 5), coin).is_some());
    }
}

#[test]
fn lambertian_always_scatters_with_albedo() {
    let albedo = Vec3::new(ONE / 2, ONE / 4, ONE / 8);
    let mat = Material::Lambertian(Lambertian::new(albedo));
    let mut world = HittableList::new();
    world.add(Hittable::Sphere(Sphere::new(v(0, 0, -2), ONE, mat)));
    let ray = Ray::new(v(0, 0, 0), v(0, 0, -1));
    let rec = world.hit(&ray, shade_window()).expect("hit");
    let (attenuation, scattered) = rec
        .material
        .scatter(&ray, &rec, Vec3::new(0, 0, ONE), 0)
        .expect("diffuse never absorbs");
    assert_eq!(attenuation, albedo);
    // normal + random unit draw
    assert_eq!(scattered.dir, v(0, 0, 2));
    // a draw cancelling the normal falls back to the normal itself
    let (_, fallback) = rec
        .material
        .scatter(&ray, &rec, Vec3::new(0, 0, -ONE), 0)
        .expect("diffuse never absorbs");
    assert_eq!(fallback.dir, rec.normal);
}
