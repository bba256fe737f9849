use ray_tracer::fixed::{fx_add, fx_div, fx_mul, fx_sqrt, fx_sub, isqrt_u128, LIMIT, ONE};
use ray_tracer::vec3::Vec3;

#[test]
fn multiplies_and_divides_exactly() {
    assert_eq!(fx_mul(3 * ONE / 2, 2 * ONE), 3 * ONE);
    assert_eq!(fx_mul(-ONE / 2, ONE / 2), -ONE / 4);
    assert_eq!(fx_div(ONE, 4 * ONE), ONE / 4);
    assert_eq!(fx_div(-3 * ONE, 2 * ONE), -3 * ONE / 2);
    // Rounds toward zero.
    assert_eq!(fx_mul(1, ONE / 2), 0);
    assert_eq!(fx_mul(-1, ONE / 2), 0);
}

#[test]
fn saturates_at_the_limit() {
    assert_eq!(fx_add(LIMIT, LIMIT), LIMIT);
    assert_eq!(fx_sub(-LIMIT, LIMIT), -LIMIT);
    assert_eq!(fx_mul(LIMIT, 4 * ONE), LIMIT);
    assert_eq!(fx_mul(LIMIT, -4 * ONE), -LIMIT);
}

#[test]
fn square_roots() {
    assert_eq!(isqrt_u128(0), 0);
    assert_eq!(isqrt_u128(15), 3);
    assert_eq!(isqrt_u128(16), 4);
    assert_eq!(fx_sqrt(4 * ONE), 2 * ONE);
    assert_eq!(fx_sqrt(ONE / 4), ONE / 2);
    assert_eq!(fx_sqrt(-ONE), 0);
    assert_eq!(fx_sqrt(0), 0);
}

#[test]
fn vector_arithmetic() {
    let a = Vec3::new(ONE, 2 * ONE, 3 * ONE);
    let b = Vec3::new(4 * ONE, -5 * ONE, 6 * ONE);
    assert_eq!(a.add(&b), Vec3::new(5 * ONE, -3 * ONE, 9 * ONE));
    assert_eq!(a.sub(&b), Vec3::new(-3 * ONE, 7 * ONE, -3 * ONE));
    assert_eq!(a.neg(), Vec3::new(-ONE, -2 * ONE, -3 * ONE));
    assert_eq!(a.scale(ONE / 2), Vec3::new(ONE / 2, ONE, 3 * ONE / 2));
    assert_eq!(a.mul(&b), Vec3::new(4 * ONE, -10 * ONE, 18 * ONE));
    assert_eq!(a.div(2 * ONE), Vec3::new(ONE / 2, ONE, 3 * ONE / 2));
    assert_eq!(a.dot(&b), 12 * ONE);
    assert_eq!(a.len_sq(), 14 * ONE);
    assert_eq!(a.cross(&b), Vec3::new(27 * ONE, 6 * ONE, -13 * ONE));
    assert_eq!(Vec3::new(3 * ONE, 0, 4 * ONE).len(), 5 * ONE);
    assert_eq!(Vec3::new(0, 0, -3 * ONE).unit_vec(), Vec3::new(0, 0, -ONE));
    assert_eq!((a.x(), a.y(), a.z()), (ONE, 2 * ONE, 3 * ONE));
}

#[test]
fn vector_new_saturates() {
    let v = Vec3::new(i64::MAX, i64::MIN, 7);
    assert_eq!(v, Vec3::new(LIMIT, -LIMIT, 7));
}

#[test]
fn reflects_about_a_normal() {
    let d = Vec3::new(ONE, -ONE, 0);
    let n = Vec3::new(0, ONE, 0);
    assert_eq!(d.reflect(&n), Vec3::new(ONE, ONE, 0));
}

#[test]
fn refracts_straight_through_at_normal_incidence() {
    let d = Vec3::new(0, -ONE, 0);
    let n = Vec3::new(0, ONE, 0);
    assert_eq!(Vec3::refract(&d, &n, 2 * ONE / 3), Vec3::new(0, -ONE, 0));
}

#[test]
fn near_zero_uses_magnitudes() {
    assert!(Vec3::new(0, 0, 0).is_near_zero());
    assert!(!Vec3::new(-ONE, -ONE, -ONE).is_near_zero());
    assert!(!Vec3::new(0, 1, 0).is_near_zero());
}
