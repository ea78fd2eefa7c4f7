use raytracing::camera::{Camera, CameraArgs};
use raytracing::fixed::ONE;
use raytracing::geometries::sphere::Sphere;
use raytracing::hittable::{Hittable, HittableList};
use raytracing::materials::{Lambertian, Material, Metal};
use raytracing::rng::RandomSource;
use raytracing::vec::Vec3;

fn v(x: i64, y: i64, z: i64) -> Vec3 {
    Vec3::new(x * ONE, y * ONE, z * ONE)
}

fn square_camera(width: u32, samples_per_pixel: u32, max_depth: u32) -> Camera {
    Camera::new(CameraArgs {
        aspect_ratio: ONE,
        image_width: width,
        samples_per_pixel,
        max_depth,
        tan_half_fov: ONE,
        lookfrom: v(0, 0, 0),
        lookat: v(0, 0, -1),
        up: v(0, 1, 0),
        tan_half_defocus: 0,
        focus_distance: ONE,
        ..Default::default()
    })
}

#[test]
fn default_args_give_documented_shape() {
    let args = CameraArgs::default();
    assert_eq!(args.image_width, 400);
    assert_eq!(args.samples_per_pixel, 10);
    assert_eq!(args.max_depth, 10);
    assert_eq!(args.tan_half_fov, ONE);
    assert_eq!(args.tan_half_defocus, 0);
    // 400 wide at 16:9 rounds to 225 rows
    let cam = Camera::new(args);
    assert_eq!(cam.image_height, 225);
    assert_eq!(cam.image_width, 400);
    assert_eq!(Camera::default(), cam);
}

#[test]
fn height_rounds_to_nearest_row() {
    // 5 columns at ratio 3 is 1.67 rows: rounds to 2, not down to 1
    let cam = Camera::new(CameraArgs {
        aspect_ratio: 3 * ONE,
        image_width: 5,
        ..Default::default()
    });
    assert_eq!(cam.image_height, 2);
}

#[test]
fn height_is_at_least_one_row() {
    let cam = Camera::new(CameraArgs {
        aspect_ratio: 100 * ONE,
        image_width: 3,
        ..Default::default()
    });
    assert_eq!(cam.image_height, 1);
}

#[test]
fn diffuse_hit_at_depth_one_is_black() {
    let mut world = HittableList::new();
    world.add(Hittable::Sphere(Sphere::new(
        v(0, 0, -1),
        ONE / 2,
        Material::Lambertian(Lambertian::new(Vec3::new(ONE / 2, ONE / 2, ONE / 2))),
    )));
    let cam = square_camera(3, 1, 1);
    let mut rng = RandomSource::from_seed(11);
    // the center pixel's ray runs straight into the sphere
    let ray = cam.get_ray(1, 1, 0, 0, Vec3::new(0, 0, 0));
    let color = Camera::ray_color(1, &ray, &world, &mut rng);
    assert_eq!(color, Vec3::new(0, 0, 0));
    // depth zero is black before any query
    let black = Camera::ray_color(0, &ray, &world, &mut rng);
    assert_eq!(black, Vec3::new(0, 0, 0));
}

#[test]
fn empty_scene_renders_exact_background() {
    let world = HittableList::new();
    let cam = square_camera(4, 1, 5);
    assert_eq!(cam.image_height, 4);
    let out = cam.render(&world, 987);

    let mut expected = String::from("P3\n4 4\n255\n");
    let mut rng = RandomSource::from_seed(0);
    for row in 0..4 {
        for column in 0..4 {
            let ray = cam.get_ray(row, column, 0, 0, Vec3::new(0, 0, 0));
            let color = Camera::ray_color(5, &ray, &world, &mut rng);
            expected.push_str(&color.to_bytes_string());
            expected.push('\n');
        }
    }
    assert_eq!(out, expected);
}

#[test]
fn seeded_render_is_reproducible() {
    let mut world = HittableList::new();
    world.add(Hittable::Sphere(Sphere::new(
        v(0, 0, -2),
        ONE,
        Material::Lambertian(Lambertian::new(Vec3::new(ONE / 2, ONE / 3, ONE / 4))),
    )));
    world.add(Hittable::Sphere(Sphere::new(
        v(2, 0, -3),
        ONE,
        Material::Metal(Metal::new(Vec3::new(ONE, ONE, ONE), ONE / 10)),
    )));
    let cam = square_camera(6, 3, 4);
    let first = cam.render(&world, 42);
    let second = cam.render(&world, 42);
    assert_eq!(first, second);
    // the header is there whatever the seed
    assert!(first.starts_with("P3\n6 6\n255\n"));
    assert_eq!(first.lines().count(), 3 + 36);
}

#[test]
fn random_draws_stay_in_their_range() {
    let mut rng = RandomSource::from_seed(5);
    // a one-wide range admits a single value
    assert_eq!(rng.next_fp(7, 8), 7);
    for _ in 0..200 {
        let x = rng.next_fp(-ONE, ONE);
        assert!(-ONE <= x && x < ONE);
    }
    let u = Vec3::random_unit_vector(&mut rng);
    assert!(!u.near_zero());
    let c = Vec3::random_in_unit_circle(&mut rng);
    assert!(c.z == 0 && c.length_squared() < ONE);
    let r = Vec3::random_range(&mut rng, 0, 10);
    assert!(0 <= r.x && r.x < 10 && 0 <= r.y && r.y < 10 && 0 <= r.z && r.z < 10);
    let q = Vec3::random(&mut rng);
    assert!(0 <= q.x && q.x < ONE);
    let h = Vec3::random_on_hemisphere(v(0, 1, 0), &mut rng);
    assert!(h.dot(v(0, 1, 0)) >= 0);
}
