use ray_tracer::fixed::{fx_sqrt, LIMIT, ONE};
use ray_tracer::hit::HitRecord;
use ray_tracer::hittable_list::HittableList;
use ray_tracer::interval::Interval;
use ray_tracer::material::{Lambertian, Material};
use ray_tracer::ray::Ray;
use ray_tracer::sphere::Sphere;
use ray_tracer::vec3::Vec3;

fn gray() -> Material {
    Material::Lambertian(Lambertian::new(Vec3::new(ONE / 2, ONE / 2, ONE / 2)))
}

fn unit_sphere_ahead() -> Sphere {
    Sphere::new(Vec3::new(0, 0, -ONE), ONE / 2, gray())
}

#[test]
fn ray_points_along_its_direction() {
    let ray = Ray::new(Vec3::new(ONE, 0, 0), Vec3::new(0, 2 * ONE, 0));
    assert_eq!(ray.at(3 * ONE / 2), Vec3::new(ONE, 3 * ONE, 0));
    assert_eq!(*ray.orig(), Vec3::new(ONE, 0, 0));
    assert_eq!(*ray.dir(), Vec3::new(0, 2 * ONE, 0));
}

#[test]
fn interval_clamps_and_bounds() {
    let i = Interval::new(0, ONE);
    assert_eq!(i.clamp(-5), 0);
    assert_eq!(i.clamp(2 * ONE), ONE);
    assert_eq!(i.clamp(ONE / 3), ONE / 3);
    assert!(i.surrounds(ONE / 2));
    assert!(!i.surrounds(0));
    assert!(!i.surrounds(ONE));
    assert_eq!((i.min(), i.max()), (0, ONE));
}

#[test]
fn sphere_hit_from_outside() {
    let sphere = unit_sphere_ahead();
    let ray = Ray::new(Vec3::new(0, 0, 0), Vec3::new(0, 0, -ONE));
    let rec = sphere.hit(&ray, &Interval::new(0, LIMIT)).unwrap();
    assert_eq!(rec.t(), ONE / 2);
    assert_eq!(*rec.point(), Vec3::new(0, 0, -ONE / 2));
    assert_eq!(*rec.normal(), Vec3::new(0, 0, ONE));
    assert!(rec.front_face());
    assert_eq!(rec.material(), gray());
}

#[test]
fn sphere_hit_point_lies_on_the_sphere() {
    let sphere = Sphere::new(Vec3::new(ONE, 2 * ONE, -5 * ONE), 2 * ONE, gray());
    let ray = Ray::new(Vec3::new(0, 0, 0), Vec3::new(ONE / 5, ONE / 3, -ONE));
    let rec = sphere.hit(&ray, &Interval::new(0, LIMIT)).unwrap();
    let from_center = rec.point().sub(&Vec3::new(ONE, 2 * ONE, -5 * ONE));
    let distance = fx_sqrt(from_center.len_sq());
    assert!((distance - 2 * ONE).abs() < ONE / 100, "distance {}", distance);
    let normal_len = rec.normal().len();
    assert!((normal_len - ONE).abs() < ONE / 100, "normal length {}", normal_len);
    // The normal is parallel to the center-to-point vector.
    let cross = rec.normal().cross(&from_center);
    assert!(cross.len() < ONE / 100);
}

#[test]
fn sphere_hit_from_inside_is_back_face() {
    let sphere = unit_sphere_ahead();
    let ray = Ray::new(Vec3::new(0, 0, -ONE), Vec3::new(0, 0, -ONE));
    let rec = sphere.hit(&ray, &Interval::new(0, LIMIT)).unwrap();
    assert_eq!(rec.t(), ONE / 2);
    assert!(!rec.front_face());
    assert_eq!(*rec.normal(), Vec3::new(0, 0, ONE));
}

#[test]
fn hit_record_orients_the_normal() {
    let ray = Ray::new(Vec3::new(0, 0, 0), Vec3::new(0, 0, -ONE));
    let outward = Vec3::new(0, 0, ONE);
    let rec = HitRecord::new(&Vec3::new(0, 0, -ONE), &ray, ONE, &outward, gray());
    assert!(rec.front_face());
    assert_eq!(*rec.normal(), outward);
    let rec = HitRecord::new(&Vec3::new(0, 0, -ONE), &ray, ONE, &outward.neg(), gray());
    assert!(!rec.front_face());
    assert_eq!(*rec.normal(), outward);
}

#[test]
fn sphere_misses() {
    let sphere = unit_sphere_ahead();
    let away = Ray::new(Vec3::new(0, 0, 0), Vec3::new(0, ONE, 0));
    assert!(sphere.hit(&away, &Interval::new(0, LIMIT)).is_none());
    let toward = Ray::new(Vec3::new(0, 0, 0), Vec3::new(0, 0, -ONE));
    // Both roots (0.5 and 1.5) lie outside the interval.
    assert!(sphere.hit(&toward, &Interval::new(0, ONE / 4)).is_none());
    // The nearer root is excluded, the farther accepted.
    let rec = sphere.hit(&toward, &Interval::new(ONE, LIMIT)).unwrap();
    assert_eq!(rec.t(), 3 * ONE / 2);
}

#[test]
fn negative_radius_is_clamped() {
    let sphere = Sphere::new(Vec3::new(0, 0, -ONE), -ONE, gray());
    assert_eq!(sphere.radius, 0);
    let ray = Ray::new(Vec3::new(0, 0, 0), Vec3::new(0, 0, -ONE));
    assert!(sphere.hit(&ray, &Interval::new(0, LIMIT)).is_none());
}

#[test]
fn nearest_hit_wins_in_any_order() {
    let near = Sphere::new(Vec3::new(0, 0, -2 * ONE), ONE / 2, gray());
    let far = Sphere::new(Vec3::new(0, 0, -5 * ONE), ONE / 2, gray());
    let ray = Ray::new(Vec3::new(0, 0, 0), Vec3::new(0, 0, -ONE));
    let mut a = HittableList::new();
    a.add(near);
    a.add(far);
    let mut b = HittableList::new();
    b.add(far);
    b.add(near);
    let ha = a.hit(&ray, &Interval::new(0, LIMIT)).unwrap();
    let hb = b.hit(&ray, &Interval::new(0, LIMIT)).unwrap();
    assert_eq!(ha.t(), 3 * ONE / 2);
    assert_eq!(ha, hb);
    assert!(HittableList::new().hit(&ray, &Interval::new(0, LIMIT)).is_none());
}
