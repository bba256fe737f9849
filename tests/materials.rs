use rand::rngs::StdRng;
use rand::SeedableRng;
use ray_tracer::fixed::ONE;
use ray_tracer::hit::HitRecord;
use ray_tracer::material::{Dielectric, Lambertian, Material, Metal};
use ray_tracer::ray::Ray;
use ray_tracer::util::random;
use ray_tracer::vec3::Vec3;

fn record_facing_up(ray: &Ray, material: Material) -> HitRecord {
    HitRecord::new(&Vec3::new(0, 0, 0), ray, ONE, &Vec3::new(0, ONE, 0), material)
}

#[test]
fn lambertian_scatters_along_normal_plus_sample() {
    let albedo = Vec3::new(ONE / 2, ONE / 4, ONE);
    let l = Lambertian::new(albedo);
    let ray = Ray::new(Vec3::new(0, ONE, 0), Vec3::new(0, -ONE, 0));
    let rec = record_facing_up(&ray, Material::Lambertian(l));
    let s = l.scatter_with(&rec, &Vec3::new(ONE, 0, 0));
    assert_eq!(*s.scattered().dir(), Vec3::new(ONE, ONE, 0));
    assert_eq!(*s.scattered().orig(), Vec3::new(0, 0, 0));
    assert_eq!(*s.attenuation(), albedo);
}

#[test]
fn lambertian_degenerate_direction_falls_back_to_normal() {
    let l = Lambertian::new(Vec3::new(ONE / 2, ONE / 2, ONE / 2));
    let ray = Ray::new(Vec3::new(0, ONE, 0), Vec3::new(0, -ONE, 0));
    let rec = record_facing_up(&ray, Material::Lambertian(l));
    let s = l.scatter_with(&rec, &Vec3::new(0, -ONE, 0));
    assert_eq!(*s.scattered().dir(), Vec3::new(0, ONE, 0));
}

#[test]
fn metal_reflects_and_absorbs() {
    let albedo = Vec3::new(ONE, ONE / 2, 0);
    let ray = Ray::new(Vec3::new(-ONE, ONE, 0), Vec3::new(ONE, -ONE, 0));
    let polished = Metal::new(albedo, 0);
    let rec = record_facing_up(&ray, Material::Metal(polished));
    let s = polished.scatter_with(&ray, &rec, &Vec3::new(0, -ONE, 0)).unwrap();
    let d = *s.scattered().dir();
    assert!(d.x > 0 && d.y > 0 && d.x == d.y);
    assert_eq!(*s.attenuation(), albedo);
    let rough = Metal::new(albedo, ONE);
    assert!(rough.scatter_with(&ray, &rec, &Vec3::new(0, -ONE, 0)).is_none());
}

#[test]
fn metal_fuzz_is_clamped() {
    let albedo = Vec3::new(ONE, ONE, ONE);
    assert_eq!(Metal::new(albedo, 2 * ONE).fuzz, ONE);
    assert_eq!(Metal::new(albedo, -ONE).fuzz, 0);
    assert_eq!(Metal::new(albedo, ONE / 3).fuzz, ONE / 3);
}

#[test]
fn dielectric_index_defaults_to_one() {
    assert_eq!(Dielectric::new(-ONE).refractive_index, ONE);
    assert_eq!(Dielectric::new(0).refractive_index, ONE);
    assert_eq!(Dielectric::new(3 * ONE / 2).refractive_index, 3 * ONE / 2);
}

#[test]
fn dielectric_total_internal_reflection() {
    // Leaving glass at 45 degrees: 1.5 * sin(45) > 1, so the ray reflects.
    let glass = Dielectric::new(3 * ONE / 2);
    let ray = Ray::new(Vec3::new(-ONE, ONE, 0), Vec3::new(ONE, -ONE, 0));
    let rec = HitRecord::new(&Vec3::new(0, 0, 0), &ray, ONE, &Vec3::new(0, -ONE, 0), Material::Dielectric(glass));
    assert!(!rec.front_face());
    let s = glass.scatter(&ray, &rec);
    let unit = ray.dir().unit_vec();
    assert_eq!(*s.scattered().dir(), unit.reflect(rec.normal()));
    assert!(s.scattered().dir().y > 0);
    assert_eq!(*s.attenuation(), Vec3::new(ONE, ONE, ONE));
}

#[test]
fn dielectric_refracts_entering_glass() {
    let glass = Dielectric::new(3 * ONE / 2);
    let ray = Ray::new(Vec3::new(-ONE, ONE, 0), Vec3::new(ONE, -ONE, 0));
    let rec = record_facing_up(&ray, Material::Dielectric(glass));
    assert!(rec.front_face());
    let s = glass.scatter(&ray, &rec);
    let d = *s.scattered().dir();
    // Bent toward the normal: steeper than 45 degrees, still going down.
    assert!(d.y < 0 && d.x > 0 && d.x < -d.y);
}

#[test]
fn material_scatter_draws_from_the_generator() {
    let mut rng = StdRng::seed_from_u64(7);
    let albedo = Vec3::new(ONE / 2, ONE / 2, ONE / 2);
    let m = Material::Lambertian(Lambertian::new(albedo));
    let ray = Ray::new(Vec3::new(0, ONE, 0), Vec3::new(0, -ONE, 0));
    let rec = record_facing_up(&ray, m);
    let s = m.scatter(&ray, &rec, &mut rng).unwrap();
    assert_eq!(*s.attenuation(), albedo);
    assert_eq!(*s.scattered().orig(), Vec3::new(0, 0, 0));
}

#[test]
fn random_draws_stay_in_range_and_vary() {
    let mut rng = StdRng::seed_from_u64(1);
    let mut seen = [false; 4];
    for _ in 0..200 {
        let v = random(10, 14, &mut rng);
        assert!((10..14).contains(&v));
        seen[(v - 10) as usize] = true;
    }
    assert!(seen.iter().all(|s| *s));
}

#[test]
fn unit_vectors_have_unit_length() {
    let mut rng = StdRng::seed_from_u64(3);
    for _ in 0..100 {
        let v = Vec3::uniform_random_unit_vec(&mut rng);
        assert!((v.len() - ONE).abs() < ONE / 100, "length {}", v.len());
    }
}

#[test]
fn disk_samples_lie_in_the_disk() {
    let mut rng = StdRng::seed_from_u64(5);
    let mut moved = false;
    for _ in 0..100 {
        let v = Vec3::uniform_random_in_unit_disk(&mut rng);
        assert_eq!(v.z, 0);
        assert!(v.len_sq() < ONE);
        moved |= v.x != 0 || v.y != 0;
    }
    assert!(moved);
}
