//! The camera: rays through pixels, and the radiance they carry back.
use vstd::prelude::*;
use rand::rngs::StdRng;
use crate::color::{color_bytes_spec, color_to_string, ColorBytes};
use crate::fixed::{fx_add, fx_add_spec, fx_div, fx_mul, fx_mul_spec, in_range, quot, LIMIT, ONE};
use crate::hittable_list::{misses_all, nearest_in, HittableList};
use crate::sphere::Sphere;
use crate::interval::Interval;
use crate::hit::HitRecord;
use crate::material::{is_reflectance, ScatterResult};
use crate::ray::Ray;
use crate::util::random;
use crate::vec3::{fallback_unit, is_disk_sample, is_unit_sample, lemma_fallback_is_unit_sample, vec3, Vec3};

verus! {

/// Hits nearer than this (about 0.001) are ignored, so that a scattered ray
/// does not meet the surface it leaves.
pub const MIN_T_TO_PREVENT_SHADOW_ACNE: i64 = 66;

/// The green channel of the zenith color (0.7).
pub const SKY_GREEN: i64 = 45875;

pub open spec fn black() -> Vec3 {
    Vec3 { x: 0, y: 0, z: 0 }
}

pub open spec fn white() -> Vec3 {
    Vec3 { x: ONE, y: ONE, z: ONE }
}

/// The zenith color (0.5, 0.7, 1.0).
pub open spec fn sky_blue() -> Vec3 {
    Vec3 { x: 32768, y: SKY_GREEN, z: ONE }
}

/// The range of ray parameters a scene is searched over.
pub open spec fn hit_interval() -> Interval {
    Interval { min: MIN_T_TO_PREVENT_SHADOW_ACNE, max: LIMIT }
}

/// How far up the sky gradient a unit direction with height `y` lies:
/// `y` mapped from `[-1, 1]` onto `[0, 1]`.
pub open spec fn blend_weight(y: int) -> int {
    Interval { min: 0, max: ONE }.clamp_spec(fx_mul_spec(ONE / 2, fx_add_spec(y, ONE as int)))
}

/// `(1 - a) * 1 + a * c`.
pub open spec fn blend_channel(a: int, c: int) -> int {
    fx_add_spec(fx_mul_spec(ONE - a, ONE as int), fx_mul_spec(a, c))
}

/// The sky seen along a unit direction with height `y`, blended linearly
/// from white at `y == -1` to the zenith color at `y == 1`.
pub open spec fn background_spec(y: int) -> Vec3 {
    let a = blend_weight(y);
    vec3(blend_channel(a, ONE / 2), blend_channel(a, SKY_GREEN as int), blend_channel(a, ONE as int))
}

/// What a ray that meets nothing carries: the sky in its direction, or no
/// light for a ray without direction.
pub open spec fn sky_spec(dir: Vec3) -> Vec3 {
    if dir.len_spec() == 0 {
        black()
    } else {
        background_spec(dir.unit_vec_spec().y as int)
    }
}

/// The radiance `ray` carries back from the scene `world` when traced `depth`
/// bounces in, with the depth bound `max_depth`, where the material at the
/// k-th surface met draws the unit vector `samples[k]`: no light at the
/// bound; the sky for a ray that meets nothing; at the nearest hit, no light
/// where the ray is absorbed, else the attenuation times the radiance of the
/// scattered ray one bounce deeper.
pub open spec fn radiance_along(world: Seq<Sphere>, max_depth: int, ray: Ray, depth: int, samples: Seq<Vec3>) -> Vec3
    decreases max_depth - depth,
{
    if depth >= max_depth {
        black()
    } else {
        match nearest_in(world, ray, hit_interval()) {
            None => sky_spec(ray.dir),
            Some(h) => match h.material.scatter_spec(ray, h, samples[0]) {
                None => black(),
                Some(s) => s.attenuation.mul_spec(
                    radiance_along(world, max_depth, s.scattered, depth + 1, samples.drop_first()),
                ),
            },
        }
    }
}

/// `samples` holds a random unit vector for each bounce left before `max_depth`.
pub open spec fn is_sample_path(samples: Seq<Vec3>, max_depth: int, depth: int) -> bool {
    samples.len() >= max_depth - depth && forall|i: int|
        0 <= i < samples.len() ==> is_unit_sample(#[trigger] samples[i])
}

/// `r` is a radiance that `ray` may carry back, `depth` bounces in: the
/// radiance along some choice of random unit vectors.
pub open spec fn is_radiance(world: Seq<Sphere>, max_depth: int, ray: Ray, depth: int, r: Vec3) -> bool {
    exists|samples: Seq<Vec3>|
        is_sample_path(samples, max_depth, depth) && r == #[trigger] radiance_along(
            world,
            max_depth,
            ray,
            depth,
            samples,
        )
}

/// A path of fallback unit vectors, one for each bounce left.
pub open spec fn filler_path(n: int) -> Seq<Vec3> {
    Seq::new(if n < 0 {
        0
    } else {
        n as nat
    }, |i: int| fallback_unit())
}

pub proof fn lemma_filler_path(max_depth: int, depth: int)
    ensures
        is_sample_path(filler_path(max_depth - depth), max_depth, depth),
{
    lemma_fallback_is_unit_sample();
}

/// One bounce: with `u` drawn at the nearest hit and the scatter `s`, the
/// attenuated radiance of the scattered ray is a radiance of `ray`.
pub proof fn lemma_radiance_bounce(
    world: Seq<Sphere>,
    max_depth: int,
    ray: Ray,
    depth: int,
    h: HitRecord,
    u: Vec3,
    s: ScatterResult,
    c: Vec3,
)
    requires
        depth < max_depth,
        nearest_in(world, ray, hit_interval()) == Some(h),
        is_unit_sample(u),
        h.material.scatter_spec(ray, h, u) == Some(s),
        is_radiance(world, max_depth, s.scattered, depth + 1, c),
    ensures
        is_radiance(world, max_depth, ray, depth, s.attenuation.mul_spec(c)),
{
    let rest = choose|rest: Seq<Vec3>|
        is_sample_path(rest, max_depth, depth + 1) && c == #[trigger] radiance_along(
            world,
            max_depth,
            s.scattered,
            depth + 1,
            rest,
        );
    let samples = seq![u].add(rest);
    assert(samples.drop_first() =~= rest);
    assert(samples[0] == u);
    assert forall|i: int| 0 <= i < samples.len() implies is_unit_sample(#[trigger] samples[i]) by {
        if i > 0 {
            assert(samples[i] == rest[i - 1]);
        }
    }
    assert(s.attenuation.mul_spec(c) == radiance_along(world, max_depth, ray, depth, samples));
}

/// At a hit where the drawn `u` is absorbed, black is a radiance of `ray`.
pub proof fn lemma_radiance_absorbed(world: Seq<Sphere>, max_depth: int, ray: Ray, depth: int, h: HitRecord, u: Vec3)
    requires
        depth < max_depth,
        nearest_in(world, ray, hit_interval()) == Some(h),
        is_unit_sample(u),
        h.material.scatter_spec(ray, h, u) is None,
    ensures
        is_radiance(world, max_depth, ray, depth, black()),
{
    lemma_fallback_is_unit_sample();
    let samples = seq![u].add(filler_path(max_depth - depth - 1));
    assert(samples[0] == u);
    assert forall|i: int| 0 <= i < samples.len() implies is_unit_sample(#[trigger] samples[i]) by {
        if i > 0 {
            assert(samples[i] == fallback_unit());
        }
    }
    assert(black() == radiance_along(world, max_depth, ray, depth, samples));
}

/// Without a hit, or at the bound, the radiance needs no samples.
pub proof fn lemma_radiance_without_hit(world: Seq<Sphere>, max_depth: int, ray: Ray, depth: int)
    requires
        depth >= max_depth || nearest_in(world, ray, hit_interval()) is None,
    ensures
        is_radiance(
            world,
            max_depth,
            ray,
            depth,
            if depth >= max_depth {
                black()
            } else {
                sky_spec(ray.dir)
            },
        ),
{
    lemma_filler_path(max_depth, depth);
    let samples = filler_path(max_depth - depth);
    assert(radiance_along(world, max_depth, ray, depth, samples) == (if depth >= max_depth {
        black()
    } else {
        sky_spec(ray.dir)
    }));
}

/// The product of two values of `[0, 1]` lies in `[0, 1]` and is at most the first.
pub proof fn lemma_mul_unit(a: int, b: int)
    requires
        0 <= a <= ONE,
        0 <= b <= ONE,
    ensures
        0 <= fx_mul_spec(a, b) <= a,
{
    assert(0 <= a * b <= a * ONE) by (nonlinear_arith)
        requires
            0 <= a <= ONE,
            0 <= b <= ONE,
    ;
    vstd::arithmetic::div_mod::lemma_div_is_ordered(0, a * b, ONE as int);
    vstd::arithmetic::div_mod::lemma_div_is_ordered(a * b, a * ONE, ONE as int);
    vstd::arithmetic::div_mod::lemma_div_by_multiple(a, ONE as int);
}

pub proof fn lemma_mul_one(a: int)
    requires
        in_range(a),
    ensures
        fx_mul_spec(a, ONE as int) == a,
{
    if a >= 0 {
        vstd::arithmetic::div_mod::lemma_div_by_multiple(a, ONE as int);
    } else {
        vstd::arithmetic::div_mod::lemma_div_by_multiple(-a, ONE as int);
        assert((-a) * ONE == -(a * ONE)) by (nonlinear_arith);
    }
}

/// Colors of `[0, 1]` attenuate to colors of `[0, 1]`.
pub proof fn lemma_attenuate_reflectance(a: Vec3, c: Vec3)
    requires
        is_reflectance(a),
        is_reflectance(c),
    ensures
        is_reflectance(a.mul_spec(c)),
{
    lemma_mul_unit(a.x as int, c.x as int);
    lemma_mul_unit(a.y as int, c.y as int);
    lemma_mul_unit(a.z as int, c.z as int);
}

/// The sky gradient stays within `[0, 1]`.
pub proof fn lemma_background_reflectance(y: int)
    ensures
        is_reflectance(background_spec(y)),
{
    let a = blend_weight(y);
    lemma_mul_one(ONE - a);
    lemma_mul_unit(a, ONE as int);
    lemma_mul_unit(a, SKY_GREEN as int);
    lemma_mul_unit(a, ONE / 2);
}

/// The gradient's ends: a unit direction straight down (`y == -1`) sees pure
/// white, one straight up (`y == 1`) pure (0.5, 0.7, 1.0).
pub proof fn lemma_background_endpoints()
    ensures
        background_spec(-ONE) == white(),
        background_spec(ONE as int) == sky_blue(),
{
    assert(quot(0, ONE as int) == 0);
    assert(blend_weight(-ONE) == 0);
    lemma_mul_one(ONE as int);
    assert(fx_mul_spec(0, ONE as int) == 0);
    assert(fx_mul_spec(0, SKY_GREEN as int) == 0);
    assert(background_spec(-ONE) == white());
    assert((ONE / 2) * (2 * ONE) == 0x100000000int);
    assert(0x100000000int / 65536int == 65536int) by (nonlinear_arith);
    assert(blend_weight(ONE as int) == ONE);
    assert(quot(ONE * SKY_GREEN, ONE as int) == SKY_GREEN) by {
        vstd::arithmetic::div_mod::lemma_div_by_multiple(SKY_GREEN as int, ONE as int);
    }
    assert(quot(ONE * (ONE / 2), ONE as int) == ONE / 2) by {
        vstd::arithmetic::div_mod::lemma_div_by_multiple(ONE / 2, ONE as int);
    }
    assert(background_spec(ONE as int) == sky_blue());
}

/// The color a ray that meets nothing carries back.
pub fn sky_color(dir: &Vec3) -> (r: Vec3)
    requires
        dir.wf(),
    ensures
        r == sky_spec(*dir),
        r.wf(),
        is_reflectance(r),
{
    if dir.len() == 0 {
        return Vec3::new(0, 0, 0);
    }
    let unit_direction = dir.unit_vec();
    let interval = Interval::new(0, ONE);
    let a = interval.clamp(fx_mul(ONE / 2, fx_add(unit_direction.y(), ONE)));
    let r = Vec3::new(
        fx_add(fx_mul(ONE - a, ONE), fx_mul(a, ONE / 2)),
        fx_add(fx_mul(ONE - a, ONE), fx_mul(a, SKY_GREEN)),
        fx_add(fx_mul(ONE - a, ONE), fx_mul(a, ONE)),
    );
    proof {
        lemma_background_reflectance(unit_direction.y as int);
    }
    r
}

/// `c` is a radiance estimate for pixel (`row`, `col`) of `cam`: a radiance
/// of the camera ray through some point of the pixel square, from some point
/// of the lens.
pub open spec fn is_pixel_sample(cam: Camera, world: Seq<Sphere>, row: int, col: int, c: Vec3) -> bool {
    exists|offset: Vec3, disk: Vec3|
        is_square_sample(offset) && is_disk_sample(disk) && #[trigger] is_radiance(
            world,
            cam.max_depth as int,
            cam.ray_spec(row, col, offset, disk),
            0,
            c,
        )
}

/// `px` is what pixel (`row`, `col`) of `cam` may be: the encoded average of
/// `samples_per_pixel` radiance estimates for that pixel.
pub open spec fn is_pixel(cam: Camera, world: Seq<Sphere>, row: int, col: int, px: ColorBytes) -> bool {
    exists|samples: Seq<Vec3>|
        #![trigger average_spec(samples)]
        samples.len() == cam.samples_per_pixel && (forall|i: int|
            0 <= i < samples.len() ==> is_pixel_sample(cam, world, row, col, #[trigger] samples[i])) && px
            == color_bytes_spec(average_spec(samples))
}

/// The pixel at (`row`, `col`) of a row-major image `width` pixels wide.
pub open spec fn pixel_at(image: Seq<ColorBytes>, width: int, row: int, col: int) -> ColorBytes {
    image[row * width + col]
}

/// The saturating sum of `samples`.
pub open spec fn sum_spec(samples: Seq<Vec3>) -> Vec3
    decreases samples.len(),
{
    if samples.len() == 0 {
        black()
    } else {
        sum_spec(samples.drop_last()).add_spec(samples.last())
    }
}

/// The mean of `samples`; black where there are none.
pub open spec fn average_spec(samples: Seq<Vec3>) -> Vec3 {
    if samples.len() == 0 {
        black()
    } else {
        sum_spec(samples).div_spec(whole(samples.len() as int))
    }
}

/// Divides the sum of `n` samples by `n`; black for no samples.
pub fn average_samples(sum: &Vec3, n: u32) -> (r: Vec3)
    requires
        sum.wf(),
    ensures
        r == (if n == 0 {
            black()
        } else {
            sum.div_spec(whole(n as int))
        }),
        *sum == black() ==> r == black(),
{
    if n == 0 {
        Vec3::new(0, 0, 0)
    } else {
        proof {
            let d = whole(n as int);
            assert(0int / d == 0) by (nonlinear_arith)
                requires
                    d > 0,
            ;
            assert(quot(0, d) == 0);
        }
        sum.div(n as i64 * ONE)
    }
}

/// `r` is an offset within the pixel square `[-1/2, 1/2)^2`.
pub open spec fn is_square_sample(r: Vec3) -> bool {
    r.wf() && -ONE / 2 <= r.x < ONE / 2 && -ONE / 2 <= r.y < ONE / 2 && r.z == 0
}

/// A random offset within the pixel square, for anti-aliasing.
pub fn sample_square(rng: &mut StdRng) -> (r: Vec3)
    ensures
        is_square_sample(r),
{
    Vec3::new(random(-ONE / 2, ONE / 2, rng), random(-ONE / 2, ONE / 2, rng), 0)
}

/// The image height for a width and an aspect ratio (width over height):
/// the width divided by the ratio, truncated, and at least 1.
pub open spec fn image_height_spec(image_width: int, aspect_ratio: int) -> int {
    let h = image_width * ONE / aspect_ratio;
    if h < 1 {
        1
    } else if h > u32::MAX {
        u32::MAX as int
    } else {
        h
    }
}

pub fn compute_image_height(image_width: u32, aspect_ratio: i64) -> (r: u32)
    requires
        aspect_ratio > 0,
    ensures
        r == image_height_spec(image_width as int, aspect_ratio as int),
        r >= 1,
{
    let scaled: u64 = image_width as u64 * 65536;
    let h: u64 = scaled / aspect_ratio as u64;
    if h < 1 {
        1
    } else if h > u32::MAX as u64 {
        u32::MAX
    } else {
        h as u32
    }
}

/// The fixed-point value of the whole number `n`.
pub open spec fn whole(n: int) -> int {
    n * ONE
}

/// The aspect ratio that the whole-pixel image really has.
pub open spec fn actual_aspect_ratio_spec(image_width: int, image_height: int) -> int {
    crate::fixed::fx_div_spec(whole(image_width), whole(image_height))
}

pub fn actual_aspect_ratio(image_width: u32, image_height: u32) -> (r: i64)
    requires
        image_height > 0,
    ensures
        r == actual_aspect_ratio_spec(image_width as int, image_height as int),
        in_range(r as int),
{
    fx_div(image_width as i64 * ONE, image_height as i64 * ONE)
}

pub struct Camera {
    pub image_width: u32,
    pub image_height: u32,
    pub center: Vec3,
    pub pixel_delta_u: Vec3,
    pub pixel_delta_v: Vec3,
    pub pixel_upper_left_loc: Vec3,
    pub samples_per_pixel: u32,
    /// Bounces after which a ray carries no more light.
    pub max_depth: u32,
    /// The radius of the lens; zero or less for a pinhole.
    pub defocus_radius: i64,
    pub defocus_disk_u: Vec3,
    pub defocus_disk_v: Vec3,
}

/// The camera's backward axis, from the target to the lens.
pub open spec fn basis_w_spec(look_from: Vec3, look_at: Vec3) -> Vec3 {
    look_from.sub_spec(look_at).unit_vec_spec()
}

/// The camera's right axis.
pub open spec fn basis_u_spec(view_up: Vec3, w: Vec3) -> Vec3 {
    view_up.cross_spec(w).unit_vec_spec()
}

/// `2 * tan(fov / 2) * focus_distance`.
pub open spec fn viewport_height_spec(half_fov_tan: int, focus_distance: int) -> int {
    fx_mul_spec(fx_mul_spec(2 * ONE, half_fov_tan), focus_distance)
}

impl Camera {
    pub open spec fn wf(&self) -> bool {
        &&& self.center.wf()
        &&& self.pixel_delta_u.wf()
        &&& self.pixel_delta_v.wf()
        &&& self.pixel_upper_left_loc.wf()
        &&& in_range(self.defocus_radius as int)
        &&& self.defocus_disk_u.wf()
        &&& self.defocus_disk_v.wf()
    }

    /// The lens point for the unit-disk sample `disk`: the lens center for a
    /// pinhole camera.
    pub open spec fn ray_origin_spec(&self, disk: Vec3) -> Vec3 {
        if self.defocus_radius <= 0 {
            self.center
        } else {
            self.center.add_spec(self.defocus_disk_u.scale_spec(disk.x as int)).add_spec(
                self.defocus_disk_v.scale_spec(disk.y as int),
            )
        }
    }

    /// The ray through pixel (`row`, `col`), displaced by `offset` within the
    /// pixel, from the lens point for `disk`.
    pub open spec fn ray_spec(&self, row: int, col: int, offset: Vec3, disk: Vec3) -> Ray {
        let origin = self.ray_origin_spec(disk);
        let pixel_sample = self.pixel_upper_left_loc.add_spec(
            self.pixel_delta_u.scale_spec(fx_add_spec(whole(col), offset.x as int)),
        ).add_spec(self.pixel_delta_v.scale_spec(fx_add_spec(whole(row), offset.y as int)));
        Ray { orig: origin, dir: pixel_sample.sub_spec(origin) }
    }

    /// Builds a camera at `look_from` facing `look_at`. The trigonometry is
    /// the caller's: `half_fov_tan` is `tan(vertical_fov / 2)` and
    /// `half_defocus_tan` is `tan(defocus_angle / 2)`; all reals are fixed-point.
    pub fn new(
        aspect_ratio: i64,
        image_width: u32,
        samples_per_pixel: u32,
        max_depth: u32,
        half_fov_tan: i64,
        look_from: &Vec3,
        look_at: &Vec3,
        view_up: &Vec3,
        half_defocus_tan: i64,
        focus_distance: i64,
    ) -> (r: Camera)
        requires
            aspect_ratio > 0,
            image_width > 0,
            in_range(half_fov_tan as int),
            in_range(half_defocus_tan as int),
            in_range(focus_distance as int),
            look_from.wf(),
            look_at.wf(),
            view_up.wf(),
            look_from.sub_spec(*look_at).len_spec() != 0,
            view_up.cross_spec(basis_w_spec(*look_from, *look_at)).len_spec() != 0,
        ensures
            r.wf(),
            r.image_width == image_width,
            r.image_height == image_height_spec(image_width as int, aspect_ratio as int),
            r.center == *look_from,
            r.samples_per_pixel == samples_per_pixel,
            r.max_depth == max_depth,
            ({
                let w = basis_w_spec(*look_from, *look_at);
                let u = basis_u_spec(*view_up, w);
                let v = w.cross_spec(u);
                let viewport_height = viewport_height_spec(half_fov_tan as int, focus_distance as int);
                let viewport_width = fx_mul_spec(
                    viewport_height,
                    actual_aspect_ratio_spec(image_width as int, r.image_height as int),
                );
                let viewport_u = u.scale_spec(viewport_width);
                let viewport_v = v.neg_spec().scale_spec(viewport_height);
                let upper_left = look_from.sub_spec(w.scale_spec(focus_distance as int)).sub_spec(
                    viewport_u.div_spec(2 * ONE),
                ).sub_spec(viewport_v.div_spec(2 * ONE));
                let radius = fx_mul_spec(focus_distance as int, half_defocus_tan as int);
                &&& r.pixel_delta_u == viewport_u.div_spec(whole(image_width as int))
                &&& r.pixel_delta_v == viewport_v.div_spec(whole(r.image_height as int))
                &&& r.pixel_upper_left_loc == upper_left.add_spec(
                    r.pixel_delta_u.add_spec(r.pixel_delta_v).scale_spec(ONE / 2),
                )
                &&& r.defocus_radius == radius
                &&& r.defocus_disk_u == u.scale_spec(radius)
                &&& r.defocus_disk_v == v.scale_spec(radius)
            }),
    {
        let image_height = compute_image_height(image_width, aspect_ratio);
        let camera_center = *look_from;

        let h = fx_mul(2 * ONE, half_fov_tan);
        let viewport_height = fx_mul(h, focus_distance);
        let viewport_width = fx_mul(viewport_height, actual_aspect_ratio(image_width, image_height));

        let w = look_from.sub(look_at).unit_vec();
        let u = view_up.cross(&w).unit_vec();
        let v = w.cross(&u);

        let viewport_u = u.scale(viewport_width);
        let viewport_v = v.neg().scale(viewport_height);

        let pixel_delta_u = viewport_u.div(image_width as i64 * ONE);
        let pixel_delta_v = viewport_v.div(image_height as i64 * ONE);

        let viewport_upper_left = camera_center.sub(&w.scale(focus_distance)).sub(
            &viewport_u.div(2 * ONE),
        ).sub(&viewport_v.div(2 * ONE));
        let pixel_upper_left_loc = viewport_upper_left.add(
            &pixel_delta_u.add(&pixel_delta_v).scale(ONE / 2),
        );

        let defocus_radius = fx_mul(focus_distance, half_defocus_tan);
        let defocus_disk_u = u.scale(defocus_radius);
        let defocus_disk_v = v.scale(defocus_radius);

        Camera {
            image_width,
            image_height,
            center: camera_center,
            pixel_delta_u,
            pixel_delta_v,
            pixel_upper_left_loc,
            samples_per_pixel,
            max_depth,
            defocus_radius,
            defocus_disk_u,
            defocus_disk_v,
        }
    }

    /// The ray through pixel (`row`, `col`) for given samples of the pixel
    /// square and of the lens disk.
    pub fn ray_through(&self, row: u32, col: u32, offset: &Vec3, disk: &Vec3) -> (r: Ray)
        requires
            self.wf(),
            offset.wf(),
            disk.wf(),
        ensures
            r == self.ray_spec(row as int, col as int, *offset, *disk),
            r.wf(),
    {
        let ray_origin = if self.defocus_radius <= 0 {
            self.center
        } else {
            self.center.add(&self.defocus_disk_u.scale(disk.x())).add(
                &self.defocus_disk_v.scale(disk.y()),
            )
        };
        let pixel_sample = self.pixel_upper_left_loc.add(
            &self.pixel_delta_u.scale(fx_add(col as i64 * ONE, offset.x())),
        ).add(&self.pixel_delta_v.scale(fx_add(row as i64 * ONE, offset.y())));
        Ray::new(ray_origin, pixel_sample.sub(&ray_origin))
    }

    /// A camera ray through a random point of pixel (`row`, `col`), from a
    /// random point of the lens when the lens has a radius.
    pub fn get_ray(&self, row: u32, col: u32, rng: &mut StdRng) -> (r: Ray)
        requires
            self.wf(),
        ensures
            r.wf(),
            exists|offset: Vec3, disk: Vec3|
                is_square_sample(offset) && is_disk_sample(disk) && r == #[trigger] self.ray_spec(
                    row as int,
                    col as int,
                    offset,
                    disk,
                ),
    {
        let offset = sample_square(rng);
        let disk = if self.defocus_radius <= 0 {
            Vec3::new(0, 0, 0)
        } else {
            Vec3::uniform_random_in_unit_disk(rng)
        };
        self.ray_through(row, col, &offset, &disk)
    }

    /// The light that `ray` carries back from the scene, `depth` bounces in:
    /// none once the depth bound is reached; the sky for a ray that meets
    /// nothing; otherwise what the nearest surface scatters, attenuated.
    pub fn compute_ray_color(&self, ray: &Ray, depth: u32, world: &HittableList, rng: &mut StdRng) -> (r: Vec3)
        requires
            depth <= self.max_depth,
            ray.wf(),
            world.wf(),
        ensures
            r.wf(),
            is_radiance(world@, self.max_depth as int, *ray, depth as int, r),
            depth == self.max_depth ==> r == black() && *final(rng) == *old(rng),
            depth < self.max_depth && misses_all(world@, *ray, hit_interval()) ==> r == sky_spec(ray.dir),
            world.is_passive() ==> is_reflectance(r),
        decreases self.max_depth - depth,
    {
        if depth == self.max_depth {
            proof {
                lemma_radiance_without_hit(world@, self.max_depth as int, *ray, depth as int);
            }
            return Vec3::new(0, 0, 0);
        }
        let hit = world.hit(ray, &Interval::new(MIN_T_TO_PREVENT_SHADOW_ACNE, LIMIT));
        assert(hit == nearest_in(world@, *ray, hit_interval()));
        match hit {
            Some(hit_record) => {
                let scatter_result = hit_record.material().scatter(ray, &hit_record, rng);
                let ghost u = choose|u: Vec3|
                    u.wf() && is_unit_sample(u) && scatter_result == #[trigger] hit_record.material.scatter_spec(
                        *ray,
                        hit_record,
                        u,
                    );
                match scatter_result {
                    Some(scatter_result) => {
                        let color_from_scattered_ray = self.compute_ray_color(
                            scatter_result.scattered(),
                            depth + 1,
                            world,
                            rng,
                        );
                        let r = scatter_result.attenuation().mul(&color_from_scattered_ray);
                        proof {
                            if world.is_passive() {
                                lemma_attenuate_reflectance(
                                    scatter_result.attenuation,
                                    color_from_scattered_ray,
                                );
                            }
                            lemma_radiance_bounce(
                                world@,
                                self.max_depth as int,
                                *ray,
                                depth as int,
                                hit_record,
                                u,
                                scatter_result,
                                color_from_scattered_ray,
                            );
                        }
                        r
                    },
                    None => {
                        let absorbed = Vec3::new(0, 0, 0);
                        proof {
                            lemma_radiance_absorbed(world@, self.max_depth as int, *ray, depth as int, hit_record, u);
                        }
                        absorbed
                    },
                }
            },
            None => {
                proof {
                    lemma_radiance_without_hit(world@, self.max_depth as int, *ray, depth as int);
                }
                sky_color(ray.dir())
            },
        }
    }

    /// Pixel (`row`, `col`): the average of `samples_per_pixel` independent
    /// radiance estimates of rays through the pixel, encoded as bytes. No
    /// samples, or a depth bound of zero, give black.
    pub fn pixel_color(&self, row: u32, col: u32, world: &HittableList, rng: &mut StdRng) -> (r: ColorBytes)
        requires
            self.wf(),
            world.wf(),
        ensures
            is_pixel(*self, world@, row as int, col as int, r),
            self.samples_per_pixel == 0 || self.max_depth == 0 ==> r == (ColorBytes { r: 0, g: 0, b: 0 }),
    {
        let mut pixel_color = Vec3::new(0, 0, 0);
        let ghost mut samples: Seq<Vec3> = Seq::empty();
        let mut sample: u32 = 0;
        while sample < self.samples_per_pixel
            invariant
                self.wf(),
                world.wf(),
                sample <= self.samples_per_pixel,
                samples.len() == sample,
                forall|i: int|
                    0 <= i < samples.len() ==> is_pixel_sample(
                        *self,
                        world@,
                        row as int,
                        col as int,
                        #[trigger] samples[i],
                    ),
                pixel_color == sum_spec(samples),
                pixel_color.wf(),
                self.max_depth == 0 ==> pixel_color == black(),
            decreases self.samples_per_pixel - sample,
        {
            let ray = self.get_ray(row, col, rng);
            let estimate = self.compute_ray_color(&ray, 0, world, rng);
            proof {
                let (offset, disk) = choose|offset: Vec3, disk: Vec3|
                    is_square_sample(offset) && is_disk_sample(disk) && ray == #[trigger] self.ray_spec(
                        row as int,
                        col as int,
                        offset,
                        disk,
                    );
                assert(is_radiance(
                    world@,
                    self.max_depth as int,
                    self.ray_spec(row as int, col as int, offset, disk),
                    0,
                    estimate,
                ));
                assert(is_pixel_sample(*self, world@, row as int, col as int, estimate));
                assert(samples.push(estimate).drop_last() =~= samples);
                samples = samples.push(estimate);
            }
            pixel_color = pixel_color.add(&estimate);
            sample = sample + 1;
        }
        let average = average_samples(&pixel_color, self.samples_per_pixel);
        let r = color_to_string(&average);
        proof {
            assert(crate::fixed::fx_sqrt_spec(0) == 0);
            assert(average == average_spec(samples));
            assert(r == color_bytes_spec(average_spec(samples)));
        }
        r
    }

    /// One row of the image, left to right.
    pub fn render_row(&self, row: u32, world: &HittableList, rng: &mut StdRng) -> (r: Vec<ColorBytes>)
        requires
            self.wf(),
            world.wf(),
        ensures
            r@.len() == self.image_width,
            forall|i: int| 0 <= i < r@.len() ==> is_pixel(*self, world@, row as int, i, #[trigger] r@[i]),
            self.samples_per_pixel == 0 || self.max_depth == 0 ==> forall|i: int|
                0 <= i < r@.len() ==> #[trigger] r@[i] == (ColorBytes { r: 0, g: 0, b: 0 }),
    {
        let mut pixels: Vec<ColorBytes> = Vec::new();
        let mut col: u32 = 0;
        while col < self.image_width
            invariant
                self.wf(),
                world.wf(),
                col <= self.image_width,
                pixels@.len() == col,
                forall|i: int|
                    0 <= i < pixels@.len() ==> is_pixel(*self, world@, row as int, i, #[trigger] pixels@[i]),
                self.samples_per_pixel == 0 || self.max_depth == 0 ==> forall|i: int|
                    0 <= i < pixels@.len() ==> #[trigger] pixels@[i] == (ColorBytes { r: 0, g: 0, b: 0 }),
            decreases self.image_width - col,
        {
            let pixel = self.pixel_color(row, col, world, rng);
            pixels.push(pixel);
            col = col + 1;
        }
        pixels
    }

    /// The whole image, row by row from the top, each row left to right:
    /// pixel (`row`, `col`) stands at `row * image_width + col`.
    pub fn render(&self, world: &HittableList, rng: &mut StdRng) -> (r: Vec<ColorBytes>)
        requires
            self.wf(),
            world.wf(),
        ensures
            r@.len() == self.image_width * self.image_height,
            forall|row: int, col: int|
                0 <= row < self.image_height && 0 <= col < self.image_width ==> is_pixel(
                    *self,
                    world@,
                    row,
                    col,
                    #[trigger] pixel_at(r@, self.image_width as int, row, col),
                ),
            self.samples_per_pixel == 0 || self.max_depth == 0 ==> forall|i: int|
                0 <= i < r@.len() ==> #[trigger] r@[i] == (ColorBytes { r: 0, g: 0, b: 0 }),
    {
        let mut image: Vec<ColorBytes> = Vec::new();
        let mut row: u32 = 0;
        let ghost w = self.image_width as int;
        while row < self.image_height
            invariant
                self.wf(),
                world.wf(),
                w == self.image_width,
                row <= self.image_height,
                image@.len() == row * w,
                forall|rr: int, cc: int|
                    0 <= rr < row && 0 <= cc < w ==> is_pixel(
                        *self,
                        world@,
                        rr,
                        cc,
                        #[trigger] pixel_at(image@, w, rr, cc),
                    ),
                self.samples_per_pixel == 0 || self.max_depth == 0 ==> forall|i: int|
                    0 <= i < image@.len() ==> #[trigger] image@[i] == (ColorBytes { r: 0, g: 0, b: 0 }),
            decreases self.image_height - row,
        {
            let mut pixels = self.render_row(row, world, rng);
            let ghost before = image@;
            let ghost row_pixels = pixels@;
            image.append(&mut pixels);
            proof {
                assert((row + 1) * w == row * w + w) by (nonlinear_arith);
                assert forall|i: int| 0 <= i < image@.len() && (self.samples_per_pixel == 0 || self.max_depth == 0) implies
                    #[trigger] image@[i] == (ColorBytes { r: 0, g: 0, b: 0 }) by {
                    if i >= before.len() {
                        assert(image@[i] == row_pixels[i - before.len()]);
                    }
                }
                assert forall|rr: int, cc: int| 0 <= rr < row + 1 && 0 <= cc < w implies is_pixel(
                    *self,
                    world@,
                    rr,
                    cc,
                    #[trigger] pixel_at(image@, w, rr, cc),
                ) by {
                    if rr < row {
                        assert(rr * w + cc < row * w) by (nonlinear_arith)
                            requires
                                0 <= rr < row,
                                0 <= cc < w,
                        ;
                        assert(0 <= rr * w + cc) by (nonlinear_arith)
                            requires
                                0 <= rr,
                                0 <= cc,
                                0 <= w,
                        ;
                        assert(pixel_at(image@, w, rr, cc) == pixel_at(before, w, rr, cc));
                    } else {
                        assert(pixel_at(image@, w, rr, cc) == row_pixels[cc]);
                    }
                }
            }
            row = row + 1;
        }
        proof {
            assert(self.image_height * w == w * self.image_height) by (nonlinear_arith);
        }
        image
    }
}

} // verus!
