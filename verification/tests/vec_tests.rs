use raytracing::fixed::{HALF, ONE};
use raytracing::interval::Interval;
use raytracing::vec::Vec3;

/// A vector of whole coordinates in the fixed-point scale.
fn v(x: i64, y: i64, z: i64) -> Vec3 {
    Vec3::new(x * ONE, y * ONE, z * ONE)
}

#[test]
fn test_vec3() {
    let v1 = v(1, 2, 3);
    let v2 = v(4, 5, 6);

    assert_eq!(v1.add(v2), v(5, 7, 9));
    assert_eq!(v1.sub(v2), v(-3, -3, -3));
    assert_eq!(v1.mul(v2), v(4, 10, 18));
    // 1/4 and 3/6 are exact; 2/5 truncates to 26214 units of the scale
    assert_eq!(v1.div(v2), Vec3::new(ONE / 4, 26214, HALF));
    assert_eq!(v1.add_scalar(ONE), v(2, 3, 4));
    assert_eq!(v1.sub_scalar(ONE), v(0, 1, 2));
    assert_eq!(v1.scale(2 * ONE), v(2, 4, 6));
    assert_eq!(v1.div_scalar(2 * ONE), Vec3::new(HALF, ONE, ONE + HALF));
    assert_eq!(v1.neg(), v(-1, -2, -3));
}

#[test]
fn test_cross_product() {
    let v1 = v(1, 0, 0);
    let v2 = v(0, 1, 0);

    assert_eq!(v1.cross(v2), v(0, 0, 1));
}

#[test]
fn test_dot_product() {
    let v1 = v(1, 2, 3);
    let v2 = v(4, 5, 6);

    assert_eq!(v1.dot(v2), 32 * ONE);
}

#[test]
fn add_commutes_and_associates() {
    let a = Vec3::new(123, -456, 789);
    let b = Vec3::new(-9999, 88, 1_000_000);
    let c = Vec3::new(5, 5, 5);
    assert_eq!(a.add(b), b.add(a));
    assert_eq!(a.add(b).add(c), a.add(b.add(c)));
    assert_eq!(a.sub(a), Vec3::new(0, 0, 0));
    assert_eq!(a.dot(a), a.length_squared());
    assert_eq!(a.cross(b), b.cross(a).neg());
}

#[test]
fn unit_vector_of_axis_vector_has_length_one() {
    let a = v(7, 0, 0);
    assert_eq!(a.unit_vector(), v(1, 0, 0));
    assert_eq!(a.unit_vector().length(), ONE);
    let b = v(0, -3, 0);
    assert_eq!(b.unit_vector(), v(0, -1, 0));
    assert_eq!(b.unit_vector().length(), ONE);
}

#[test]
fn reflect_twice_restores_the_vector() {
    let n = v(0, 1, 0);
    let w = Vec3::new(123456, -789, 4242);
    assert_eq!(w.reflect(n).reflect(n), w);
    // reflection preserves the squared length
    assert_eq!(w.reflect(n).length_squared(), w.length_squared());
    // a 45 degree incidence mirrors the normal component
    assert_eq!(v(1, -1, 0).reflect(n), v(1, 1, 0));
}

#[test]
fn refract_straight_through_at_equal_index() {
    let d = v(0, 0, -1);
    let n = v(0, 0, 1);
    assert_eq!(d.refract(n, ONE), d);
}

#[test]
fn near_zero_only_at_zero() {
    assert!(Vec3::new(0, 0, 0).near_zero());
    assert!(!Vec3::new(1, 0, 0).near_zero());
    assert!(!Vec3::new(0, 0, -1).near_zero());
}

#[test]
fn gamma_is_square_root() {
    // 0.25 encodes to 0.5, exactly in the scale
    assert_eq!(Vec3::new(ONE / 4, 0, ONE).linear_to_gamme(), Vec3::new(HALF, 0, ONE));
    // negative radiance encodes to zero
    assert_eq!(Vec3::new(-ONE, 0, 0).linear_to_gamme(), Vec3::new(0, 0, 0));
}

#[test]
fn byte_string_round_trip() {
    assert_eq!(Vec3::new(0, 0, 0).to_bytes_string(), "0 0 0");
    assert_eq!(Vec3::new(ONE, ONE, ONE).to_bytes_string(), "255 255 255");
    // over-range channels clamp rather than wrap
    assert_eq!(Vec3::new(100 * ONE, -ONE, 0).to_bytes_string(), "255 0 0");
}

#[test]
fn interval_containment_and_clamp() {
    let i = Interval::new(0, 10);
    assert!(i.contains(0) && i.contains(10) && i.contains(5));
    assert!(!i.contains(-1) && !i.contains(11));
    assert!(i.surrounds(5) && !i.surrounds(0) && !i.surrounds(10));
    assert!(i.surrounds_range(&Interval::new(1, 9)));
    assert!(!i.surrounds_range(&Interval::new(0, 9)));
    assert_eq!(i.clamp(-3), 0);
    assert_eq!(i.clamp(12), 10);
    assert_eq!(i.clamp(7), 7);
}
