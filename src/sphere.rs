//! Spheres, the one kind of surface.
use vstd::prelude::*;
use crate::fixed::{fx_add, fx_add_spec, fx_div, fx_div_spec, fx_mul, fx_mul_spec, fx_sqrt,
    fx_sqrt_spec, fx_sub, fx_sub_spec, in_range, lemma_fx_div_monotone, saturate, LIMIT};
use crate::hit::HitRecord;
use crate::interval::Interval;
use crate::material::Material;
use crate::ray::Ray;
use crate::vec3::{clamp_i64, Vec3};

verus! {

#[derive(Clone, Copy, Debug, PartialEq, Eq, Structural)]
pub struct Sphere {
    pub center: Vec3,
    pub radius: i64,
    pub material: Material,
}

impl Sphere {
    pub open spec fn wf(self) -> bool {
        self.center.wf() && 0 <= self.radius <= LIMIT && self.material.wf()
    }

    /// From the ray origin to the center.
    pub open spec fn oc_spec(self, ray: Ray) -> Vec3 {
        self.center.sub_spec(ray.orig)
    }

    /// The coefficient `a = |D|^2` of `a t^2 - 2 h t + c = 0`.
    pub open spec fn qa_spec(self, ray: Ray) -> int {
        ray.dir.len_sq_spec()
    }

    /// The half coefficient `h = D . (C - O)`.
    pub open spec fn qh_spec(self, ray: Ray) -> int {
        ray.dir.dot_spec(self.oc_spec(ray))
    }

    /// The coefficient `c = |C - O|^2 - r^2`.
    pub open spec fn qc_spec(self, ray: Ray) -> int {
        fx_sub_spec(self.oc_spec(ray).len_sq_spec(), fx_mul_spec(self.radius as int, self.radius as int))
    }

    /// The quarter discriminant `h^2 - a c`.
    pub open spec fn discriminant_spec(self, ray: Ray) -> int {
        let h = self.qh_spec(ray);
        fx_sub_spec(fx_mul_spec(h, h), fx_mul_spec(self.qa_spec(ray), self.qc_spec(ray)))
    }

    pub open spec fn near_root_spec(self, ray: Ray) -> int {
        fx_div_spec(
            fx_sub_spec(self.qh_spec(ray), fx_sqrt_spec(self.discriminant_spec(ray))),
            self.qa_spec(ray),
        )
    }

    pub open spec fn far_root_spec(self, ray: Ray) -> int {
        fx_div_spec(
            fx_add_spec(self.qh_spec(ray), fx_sqrt_spec(self.discriminant_spec(ray))),
            self.qa_spec(ray),
        )
    }

    /// The record of a hit at parameter `t`, with outward normal `(P - C) / r`.
    pub open spec fn record_spec(self, ray: Ray, t: int) -> HitRecord {
        let point = ray.at_spec(t);
        HitRecord::new_spec(point, ray, t, point.sub_spec(self.center).div_spec(self.radius as int), self.material)
    }

    /// The nearer root of the quadratic strictly inside `ray_t`, else the
    /// farther one, else none. A sphere of radius zero, and a ray without
    /// direction, meet nothing.
    #[verifier::opaque]
    pub open spec fn hit_spec(self, ray: Ray, ray_t: Interval) -> Option<HitRecord> {
        if self.radius <= 0 || self.qa_spec(ray) <= 0 || self.discriminant_spec(ray) < 0 {
            None
        } else if ray_t.surrounds_spec(self.near_root_spec(ray)) {
            Some(self.record_spec(ray, self.near_root_spec(ray)))
        } else if ray_t.surrounds_spec(self.far_root_spec(ray)) {
            Some(self.record_spec(ray, self.far_root_spec(ray)))
        } else {
            None
        }
    }

    /// The nearer root never exceeds the farther one.
    pub proof fn lemma_roots_ordered(self, ray: Ray)
        requires
            self.qa_spec(ray) > 0,
        ensures
            self.near_root_spec(ray) <= self.far_root_spec(ray),
    {
        let h = self.qh_spec(ray);
        let sq = fx_sqrt_spec(self.discriminant_spec(ray));
        assert(fx_sub_spec(h, sq) <= fx_add_spec(h, sq));
        lemma_fx_div_monotone(fx_sub_spec(h, sq), fx_add_spec(h, sq), self.qa_spec(ray));
    }

    /// Lowering the upper bound of the search to `b` keeps a hit nearer than
    /// `b` and drops any other.
    pub proof fn lemma_narrowed_hit(self, ray: Ray, ray_t: Interval, b: i64)
        requires
            b <= ray_t.max,
        ensures
            self.hit_spec(ray, Interval { min: ray_t.min, max: b }) == (match self.hit_spec(ray, ray_t) {
                Some(h) => if h.t < b {
                    Some(h)
                } else {
                    None
                },
                None => None,
            }),
    {
        reveal(Sphere::hit_spec);
        if self.radius > 0 && self.qa_spec(ray) > 0 && self.discriminant_spec(ray) >= 0 {
            self.lemma_roots_ordered(ray);
            let near = self.near_root_spec(ray);
            let far = self.far_root_spec(ray);
            assert(in_range(near) && in_range(far));
            assert(self.record_spec(ray, near).t == near);
            assert(self.record_spec(ray, far).t == far);
        }
    }

    /// A reported hit lies on the ray at one of the two roots, strictly inside
    /// the search range, and its normal is the radial vector `(P - C) / r`,
    /// turned to face the ray.
    pub proof fn lemma_hit_geometry(self, ray: Ray, ray_t: Interval)
        ensures
            self.hit_spec(ray, ray_t) matches Some(h) ==> {
                let outward = h.point.sub_spec(self.center).div_spec(self.radius as int);
                &&& h.t == self.near_root_spec(ray) || h.t == self.far_root_spec(ray)
                &&& ray_t.surrounds_spec(h.t as int)
                &&& h.point == ray.at_spec(h.t as int)
                &&& h.normal == outward || h.normal == outward.neg_spec()
                &&& h.material == self.material
            },
    {
        reveal(Sphere::hit_spec);
        let near = self.near_root_spec(ray);
        let far = self.far_root_spec(ray);
        assert(in_range(near) && in_range(far));
    }

    /// A negative radius is clamped to zero.
    pub fn new(center: Vec3, radius: i64, material: Material) -> (r: Sphere)
        ensures
            r.center == center,
            r.radius == if radius < 0 {
                0
            } else {
                saturate(radius as int)
            },
            r.material == material,
    {
        Sphere {
            center,
            radius: if radius < 0 {
                0
            } else {
                clamp_i64(radius)
            },
            material,
        }
    }

    /// Intersects `ray` with the sphere, accepting only parameters strictly inside `ray_t`.
    pub fn hit(&self, ray: &Ray, ray_t: &Interval) -> (r: Option<HitRecord>)
        requires
            self.wf(),
            ray.wf(),
        ensures
            r == self.hit_spec(*ray, *ray_t),
            r matches Some(h) ==> h.wf() && ray_t.surrounds_spec(h.t as int),
            r matches Some(h) ==> h.material == self.material && ray.dir.len_sq_spec() > 0,
    {
        proof {
            reveal(Sphere::hit_spec);
        }
        let oc = self.center.sub(ray.orig());
        let a = ray.dir().len_sq();
        let h = ray.dir().dot(&oc);
        let c = fx_sub(oc.len_sq(), fx_mul(self.radius, self.radius));
        let discriminant = fx_sub(fx_mul(h, h), fx_mul(a, c));
        if self.radius <= 0 || a <= 0 || discriminant < 0 {
            return None;
        }
        let sqrt_d = fx_sqrt(discriminant);
        let mut root = fx_div(fx_sub(h, sqrt_d), a);
        if !ray_t.surrounds(root) {
            root = fx_div(fx_add(h, sqrt_d), a);
            if !ray_t.surrounds(root) {
                return None;
            }
        }
        let point = ray.at(root);
        let outward_normal = point.sub(&self.center).div(self.radius);
        Some(HitRecord::new(&point, ray, root, &outward_normal, self.material))
    }
}

} // verus!
