use rand::rngs::StdRng;
use rand::SeedableRng;
use ray_tracer::camera::{actual_aspect_ratio, compute_image_height, sample_square, Camera};
use ray_tracer::color::{color_to_string, linear_to_gamma, ColorBytes};
use ray_tracer::fixed::ONE;
use ray_tracer::hittable_list::HittableList;
use ray_tracer::material::{Lambertian, Material};
use ray_tracer::ray::Ray;
use ray_tracer::sphere::Sphere;
use ray_tracer::vec3::Vec3;

const ASPECT_16_9: i64 = 16 * ONE / 9;

fn camera(width: u32, samples: u32, depth: u32) -> Camera {
    Camera::new(
        ASPECT_16_9,
        width,
        samples,
        depth,
        ONE,
        &Vec3::new(0, 0, 0),
        &Vec3::new(0, 0, -ONE),
        &Vec3::new(0, ONE, 0),
        0,
        ONE,
    )
}

fn two_sphere_world() -> HittableList {
    let gray = Material::Lambertian(Lambertian::new(Vec3::new(ONE / 2, ONE / 2, ONE / 2)));
    let mut world = HittableList::new();
    world.add(Sphere::new(Vec3::new(0, 0, -ONE), ONE / 2, gray));
    world.add(Sphere::new(Vec3::new(0, -100 * ONE - ONE / 2, -ONE), 100 * ONE, gray));
    world
}

fn bytes(c: &ColorBytes) -> (u8, u8, u8) {
    (c.r(), c.g(), c.b())
}

#[test]
fn image_height_from_aspect_ratio() {
    assert_eq!(compute_image_height(400, ASPECT_16_9), 225);
    assert_eq!(compute_image_height(16, ASPECT_16_9), 9);
    assert_eq!(compute_image_height(1, ASPECT_16_9), 1);
    assert_eq!(actual_aspect_ratio(16, 9), ASPECT_16_9);
}

#[test]
fn gamma_and_quantization() {
    assert_eq!(linear_to_gamma(ONE / 4), ONE / 2);
    assert_eq!(linear_to_gamma(-ONE), 0);
    assert_eq!(bytes(&color_to_string(&Vec3::new(ONE, 0, ONE / 4))), (255, 0, 128));
    assert_eq!(bytes(&color_to_string(&Vec3::new(2 * ONE, -ONE, ONE / 100))), (255, 0, 25));
}

#[test]
fn sky_gradient_ends() {
    let cam = camera(16, 1, 5);
    let world = HittableList::new();
    let mut rng = StdRng::seed_from_u64(0);
    let down = Ray::new(Vec3::new(0, 0, 0), Vec3::new(0, -3 * ONE, 0));
    assert_eq!(cam.compute_ray_color(&down, 0, &world, &mut rng), Vec3::new(ONE, ONE, ONE));
    let up = Ray::new(Vec3::new(0, 0, 0), Vec3::new(0, 2 * ONE, 0));
    assert_eq!(cam.compute_ray_color(&up, 0, &world, &mut rng), Vec3::new(ONE / 2, 45875, ONE));
    let level = Ray::new(Vec3::new(0, 0, 0), Vec3::new(ONE, 0, 0));
    assert_eq!(cam.compute_ray_color(&level, 0, &world, &mut rng), Vec3::new(3 * ONE / 4, 55705, ONE));
}

#[test]
fn depth_bound_gives_black() {
    let cam = camera(16, 1, 3);
    let world = two_sphere_world();
    let mut rng = StdRng::seed_from_u64(0);
    let ray = Ray::new(Vec3::new(0, 0, 0), Vec3::new(0, 0, -ONE));
    assert_eq!(cam.compute_ray_color(&ray, 3, &world, &mut rng), Vec3::new(0, 0, 0));
    let up = Ray::new(Vec3::new(0, 0, 0), Vec3::new(0, ONE, 0));
    assert_eq!(cam.compute_ray_color(&up, 3, &world, &mut rng), Vec3::new(0, 0, 0));
}

#[test]
fn colors_stay_within_one() {
    let cam = camera(16, 1, 10);
    let world = two_sphere_world();
    let mut rng = StdRng::seed_from_u64(11);
    for i in 0..50 {
        let ray = Ray::new(Vec3::new(0, 0, 0), Vec3::new((i - 25) * ONE / 25, -ONE / 3, -ONE));
        let c = cam.compute_ray_color(&ray, 0, &world, &mut rng);
        for ch in [c.x, c.y, c.z] {
            assert!((0..=ONE).contains(&ch), "channel {}", ch);
        }
    }
}

#[test]
fn camera_rays_start_at_the_lens_center() {
    let cam = camera(16, 1, 10);
    let mut rng = StdRng::seed_from_u64(2);
    let ray = cam.get_ray(4, 8, &mut rng);
    assert_eq!(*ray.orig(), Vec3::new(0, 0, 0));
    let d = *ray.dir();
    assert!(d.z == -ONE && d.x.abs() < ONE / 4 && d.y.abs() < ONE / 4);
    let offset = sample_square(&mut rng);
    assert!(offset.x >= -ONE / 2 && offset.x < ONE / 2 && offset.z == 0);
}

#[test]
fn rendering_is_deterministic_for_a_seed() {
    let cam = camera(16, 2, 5);
    let world = two_sphere_world();
    let first = cam.render(&world, &mut StdRng::seed_from_u64(42));
    let second = cam.render(&world, &mut StdRng::seed_from_u64(42));
    assert_eq!(first, second);
    assert_eq!(first.len(), 16 * 9);
}

#[test]
fn small_scene_end_to_end() {
    let world = two_sphere_world();
    // Depth 1: whatever a surface scatters is cut off, so the spheres are black.
    let shallow = camera(16, 1, 1).render(&world, &mut StdRng::seed_from_u64(9));
    assert_eq!(shallow.len(), 16 * 9);
    let center = shallow[4 * 16 + 8];
    assert_eq!(bytes(&center), (0, 0, 0));
    let corner = shallow[0];
    assert!(corner.b() >= corner.g() && corner.g() >= corner.r() && corner.r() > 100);
    // Deeper: the diffuse sphere shows as a mid gray.
    let deep = camera(16, 4, 20).render(&world, &mut StdRng::seed_from_u64(9));
    let center = deep[4 * 16 + 8];
    for ch in [center.r(), center.g(), center.b()] {
        assert!((40..=230).contains(&ch), "center {:?}", bytes(&center));
    }
    assert_ne!(bytes(&center), bytes(&deep[0]));
}

#[test]
fn zero_samples_render_black() {
    let cam = camera(16, 0, 5);
    let world = two_sphere_world();
    let row = cam.render_row(0, &world, &mut StdRng::seed_from_u64(1));
    assert_eq!(row.len(), 16);
    assert!(row.iter().all(|c| bytes(c) == (0, 0, 0)));
    let pixel = cam.pixel_color(3, 3, &world, &mut StdRng::seed_from_u64(1));
    assert_eq!(bytes(&pixel), (0, 0, 0));
}
