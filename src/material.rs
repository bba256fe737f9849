//! How surfaces scatter light: diffuse, metallic and refractive materials.
use vstd::prelude::*;
use rand::rngs::StdRng;
use crate::fixed::{fx_div, fx_div_spec, fx_mul, fx_mul_spec, fx_sqrt, fx_sqrt_spec, fx_sub,
    fx_sub_spec, lemma_sqrt_positive, saturate, LIMIT, ONE};
use crate::hit::HitRecord;
use crate::ray::Ray;
use crate::vec3::{clamp_i64, is_unit_sample, Vec3};

verus! {

/// A scattered ray and how much of its light reaches the incoming ray.
#[derive(Clone, Copy, Debug, PartialEq, Eq, Structural)]
pub struct ScatterResult {
    pub scattered: Ray,
    pub attenuation: Vec3,
}

impl ScatterResult {
    pub fn scattered(&self) -> (r: &Ray)
        ensures
            *r == self.scattered,
    {
        &self.scattered
    }

    pub fn attenuation(&self) -> (r: &Vec3)
        ensures
            *r == self.attenuation,
    {
        &self.attenuation
    }
}

/// A diffuse surface; it always scatters, never absorbs.
#[derive(Clone, Copy, Debug, PartialEq, Eq, Structural)]
pub struct Lambertian {
    pub albedo: Vec3,
}

/// A reflective surface, roughened by `fuzz` (a fixed-point value in `[0, 1]`).
#[derive(Clone, Copy, Debug, PartialEq, Eq, Structural)]
pub struct Metal {
    pub albedo: Vec3,
    pub fuzz: i64,
}

/// A transparent, refracting material.
#[derive(Clone, Copy, Debug, PartialEq, Eq, Structural)]
pub struct Dielectric {
    pub refractive_index: i64,
}

#[derive(Clone, Copy, Debug, PartialEq, Eq, Structural)]
pub enum Material {
    Lambertian(Lambertian),
    Metal(Metal),
    Dielectric(Dielectric),
}

/// The albedo channels all lie in `[0, 1]`.
pub open spec fn is_reflectance(c: Vec3) -> bool {
    0 <= c.x <= ONE && 0 <= c.y <= ONE && 0 <= c.z <= ONE
}

impl Material {
    /// The material never returns more light than it receives.
    pub open spec fn is_passive(self) -> bool {
        match self {
            Material::Lambertian(l) => is_reflectance(l.albedo),
            Material::Metal(m) => is_reflectance(m.albedo),
            Material::Dielectric(_) => true,
        }
    }
}

impl Lambertian {
    pub open spec fn wf(self) -> bool {
        self.albedo.wf()
    }

    /// Scatters along the normal plus the random unit vector `u`, or along the
    /// normal alone where that sum is (nearly) zero; attenuates by the albedo.
    pub open spec fn scatter_spec(self, hit: HitRecord, u: Vec3) -> ScatterResult {
        let sum = hit.normal.add_spec(u);
        let direction = if sum.is_near_zero_spec() {
            hit.normal
        } else {
            sum
        };
        ScatterResult { scattered: Ray { orig: hit.point, dir: direction }, attenuation: self.albedo }
    }

    pub fn new(albedo: Vec3) -> (r: Lambertian)
        ensures
            r.albedo == albedo,
    {
        Lambertian { albedo }
    }

    /// Scatters off `hit` with the random unit vector `u`.
    pub fn scatter_with(&self, hit: &HitRecord, u: &Vec3) -> (r: ScatterResult)
        requires
            hit.wf(),
            u.wf(),
        ensures
            r == self.scatter_spec(*hit, *u),
            r.scattered.wf(),
    {
        let sum = hit.normal().add(u);
        let direction = if sum.is_near_zero() {
            *hit.normal()
        } else {
            sum
        };
        ScatterResult { scattered: Ray::new(*hit.point(), direction), attenuation: self.albedo }
    }
}

impl Metal {
    pub open spec fn wf(self) -> bool {
        self.albedo.wf() && 0 <= self.fuzz <= ONE
    }

    /// Reflects about the normal, normalizes, and adds `fuzz * u`; the ray is
    /// absorbed when the result does not leave the surface (or the reflection
    /// has no length).
    pub open spec fn scatter_spec(self, ray: Ray, hit: HitRecord, u: Vec3) -> Option<ScatterResult> {
        let reflected = ray.dir.reflect_spec(hit.normal);
        let fuzzed = reflected.unit_vec_spec().add_spec(u.scale_spec(self.fuzz as int));
        if reflected.len_spec() == 0 || fuzzed.dot_spec(hit.normal) <= 0 {
            None
        } else {
            Some(
                ScatterResult {
                    scattered: Ray { orig: hit.point, dir: fuzzed },
                    attenuation: self.albedo,
                },
            )
        }
    }

    /// The fuzz is clamped to `[0, 1]`.
    pub fn new(albedo: Vec3, fuzz: i64) -> (r: Metal)
        ensures
            r.albedo == albedo,
            r.fuzz == if fuzz < 0 {
                0
            } else if fuzz > ONE {
                ONE
            } else {
                fuzz
            },
    {
        Metal {
            albedo,
            fuzz: if fuzz < 0 {
                0
            } else if fuzz > ONE {
                ONE
            } else {
                fuzz
            },
        }
    }

    /// Scatters `ray` off `hit` with the random unit vector `u`.
    pub fn scatter_with(&self, ray: &Ray, hit: &HitRecord, u: &Vec3) -> (r: Option<ScatterResult>)
        requires
            self.wf(),
            ray.wf(),
            hit.wf(),
            u.wf(),
        ensures
            r == self.scatter_spec(*ray, *hit, *u),
            r matches Some(s) ==> s.scattered.wf(),
    {
        let reflected = ray.dir().reflect(hit.normal());
        if reflected.len() == 0 {
            return None;
        }
        let fuzzed = reflected.unit_vec().add(&u.scale(self.fuzz));
        if fuzzed.dot(hit.normal()) > 0 {
            Some(ScatterResult { scattered: Ray::new(*hit.point(), fuzzed), attenuation: self.albedo })
        } else {
            None
        }
    }
}

impl Dielectric {
    pub open spec fn wf(self) -> bool {
        0 < self.refractive_index <= LIMIT
    }

    /// The index of the medium the ray leaves over that of the one it enters.
    pub open spec fn relative_index_spec(self, front_face: bool) -> int {
        if front_face {
            fx_div_spec(ONE as int, self.refractive_index as int)
        } else {
            self.refractive_index as int
        }
    }

    /// `sin(theta)` for the unit direction `d` against the normal `n`.
    pub open spec fn sin_theta_spec(d: Vec3, n: Vec3) -> int {
        let cos_theta = d.dot_spec(n);
        fx_sqrt_spec(fx_sub_spec(ONE as int, fx_mul_spec(cos_theta, cos_theta)))
    }

    /// Refraction is impossible (total internal reflection) when
    /// `relative_index * sin(theta) >= 1`; the boundary itself reflects.
    pub open spec fn must_reflect_spec(self, ray: Ray, hit: HitRecord) -> bool {
        let unit_direction = ray.dir.unit_vec_spec();
        fx_mul_spec(
            self.relative_index_spec(hit.front_face),
            Dielectric::sin_theta_spec(unit_direction, hit.normal),
        ) >= ONE
    }

    /// Reflects under total internal reflection, refracts otherwise; never
    /// attenuates.
    pub open spec fn scatter_spec(self, ray: Ray, hit: HitRecord) -> ScatterResult {
        let unit_direction = ray.dir.unit_vec_spec();
        let direction = if self.must_reflect_spec(ray, hit) {
            unit_direction.reflect_spec(hit.normal)
        } else {
            unit_direction.refract_spec(hit.normal, self.relative_index_spec(hit.front_face))
        };
        ScatterResult {
            scattered: Ray { orig: hit.point, dir: direction },
            attenuation: Vec3 { x: ONE, y: ONE, z: ONE },
        }
    }

    /// Where `relative_index * sin(theta)` reaches 1, the boundary included,
    /// the ray is reflected and no refraction is attempted; below 1 it is
    /// refracted.
    pub proof fn lemma_total_internal_reflection(self, ray: Ray, hit: HitRecord)
        ensures
            ({
                let unit_direction = ray.dir.unit_vec_spec();
                let dir = self.scatter_spec(ray, hit).scattered.dir;
                &&& self.must_reflect_spec(ray, hit) ==> dir == unit_direction.reflect_spec(hit.normal)
                &&& !self.must_reflect_spec(ray, hit) ==> dir == unit_direction.refract_spec(
                    hit.normal,
                    self.relative_index_spec(hit.front_face),
                )
            }),
    {
    }

    /// An index that is not positive is replaced by 1.
    pub fn new(refractive_index: i64) -> (r: Dielectric)
        ensures
            r.refractive_index == if refractive_index > 0 {
                saturate(refractive_index as int)
            } else {
                ONE as int
            },
            r.wf(),
    {
        Dielectric {
            refractive_index: if refractive_index > 0 {
                clamp_i64(refractive_index)
            } else {
                ONE
            },
        }
    }

    /// Refracts or reflects `ray` at `hit`.
    pub fn scatter(&self, ray: &Ray, hit: &HitRecord) -> (r: ScatterResult)
        requires
            self.wf(),
            ray.wf(),
            hit.wf(),
            ray.dir.len_sq_spec() > 0,
        ensures
            r == self.scatter_spec(*ray, *hit),
            r.scattered.wf(),
    {
        let relative_refractive_index = if hit.front_face() {
            fx_div(ONE, self.refractive_index)
        } else {
            self.refractive_index
        };
        proof {
            lemma_sqrt_positive(ray.dir.len_sq_spec());
        }
        let unit_direction = ray.dir().unit_vec();
        let cos_theta = unit_direction.dot(hit.normal());
        let sin_theta = fx_sqrt(fx_sub(ONE, fx_mul(cos_theta, cos_theta)));
        let cannot_refract = fx_mul(relative_refractive_index, sin_theta) >= ONE;
        let direction = if cannot_refract {
            unit_direction.reflect(hit.normal())
        } else {
            Vec3::refract(&unit_direction, hit.normal(), relative_refractive_index)
        };
        ScatterResult {
            scattered: Ray::new(*hit.point(), direction),
            attenuation: Vec3 { x: ONE, y: ONE, z: ONE },
        }
    }
}

impl Material {
    pub open spec fn wf(self) -> bool {
        match self {
            Material::Lambertian(l) => l.wf(),
            Material::Metal(m) => m.wf(),
            Material::Dielectric(d) => d.wf(),
        }
    }

    /// A material whose albedo lies in `[0, 1]` never attenuates by more
    /// than 1 in any channel, whatever random vector was drawn.
    pub proof fn lemma_passive_attenuation(self, ray: Ray, hit: HitRecord, u: Vec3)
        requires
            self.is_passive(),
        ensures
            self.scatter_spec(ray, hit, u) matches Some(s) ==> is_reflectance(s.attenuation),
    {
        reveal(Material::scatter_spec);
    }

    /// What `scatter` may return, given that `u` was the random unit vector drawn.
    #[verifier::opaque]
    pub open spec fn scatter_spec(self, ray: Ray, hit: HitRecord, u: Vec3) -> Option<ScatterResult> {
        match self {
            Material::Lambertian(l) => Some(l.scatter_spec(hit, u)),
            Material::Metal(m) => m.scatter_spec(ray, hit, u),
            Material::Dielectric(d) => Some(d.scatter_spec(ray, hit)),
        }
    }

    /// Scatters `ray` at `hit`, drawing a random unit vector where the
    /// material needs one; `None` means the light is absorbed.
    pub fn scatter(&self, ray: &Ray, hit: &HitRecord, rng: &mut StdRng) -> (r: Option<ScatterResult>)
        requires
            self.wf(),
            ray.wf(),
            hit.wf(),
            self is Dielectric ==> ray.dir.len_sq_spec() > 0,
        ensures
            exists|u: Vec3| u.wf() && is_unit_sample(u) && r == #[trigger] self.scatter_spec(*ray, *hit, u),
            r matches Some(s) ==> s.scattered.wf() && s.attenuation.wf(),
            r matches Some(s) ==> (self.is_passive() ==> is_reflectance(s.attenuation)),
    {
        proof {
            reveal(Material::scatter_spec);
        }
        match self {
            Material::Lambertian(l) => {
                let u = Vec3::uniform_random_unit_vec(rng);
                let r = Some(l.scatter_with(hit, &u));
                assert(r == self.scatter_spec(*ray, *hit, u));
                r
            },
            Material::Metal(m) => {
                let u = Vec3::uniform_random_unit_vec(rng);
                let r = m.scatter_with(ray, hit, &u);
                assert(r == self.scatter_spec(*ray, *hit, u));
                r
            },
            Material::Dielectric(d) => {
                let r = Some(d.scatter(ray, hit));
                let u = Vec3::new(0, ONE, 0);
                assert(r == self.scatter_spec(*ray, *hit, u));
                proof {
                    crate::vec3::lemma_fallback_is_unit_sample();
                }
                r
            },
        }
    }
}

} // verus!
