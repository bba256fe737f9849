//! Three-component fixed-point vectors, used as points, directions and colors.
use vstd::prelude::*;
use rand::rngs::StdRng;
use crate::fixed::{
    abs, fx_add, fx_add_spec, fx_div, fx_div_spec, fx_dot3, fx_dot3_spec, fx_mul, fx_mul_spec,
    fx_sqrt, fx_sqrt_spec, fx_sub, fx_sub_spec, in_range, lemma_sqrt_one, lemma_sqrt_positive, quot,
    saturate, LIMIT, ONE,
};
use crate::util::random;

verus! {

/// How many draws a rejection-sampling loop makes before it gives up and
/// returns its fallback value; each draw is accepted with probability above
/// one half, so the fallback is never expected in practice.
pub const MAX_SAMPLING_ATTEMPTS: u32 = 1000;

/// Components whose magnitude is below this (in fixed-point units) count as zero.
pub const NEAR_ZERO_TOLERANCE: i64 = 1;

/// A vector whose components are fixed-point values (see `fixed`).
#[derive(Clone, Copy, Debug, PartialEq, Eq, Structural)]
pub struct Vec3 {
    pub x: i64,
    pub y: i64,
    pub z: i64,
}

pub open spec fn vec3(x: int, y: int, z: int) -> Vec3 {
    Vec3 { x: x as i64, y: y as i64, z: z as i64 }
}

/// `r` is a vector of the unit ball other than zero, scaled to unit length.
pub open spec fn is_unit_sample(r: Vec3) -> bool {
    exists|v: Vec3| v.wf() && 0 < v.len_sq_spec() <= ONE && r == #[trigger] v.unit_vec_spec()
}

/// `r` is a point of the open unit disk in the plane `z == 0`.
pub open spec fn is_disk_sample(r: Vec3) -> bool {
    r.wf() && r.z == 0 && r.len_sq_spec() < ONE
}

/// The unit vector that a sampling loop falls back to.
pub open spec fn fallback_unit() -> Vec3 {
    vec3(0, ONE as int, 0)
}

pub proof fn lemma_fallback_is_unit_sample()
    ensures
        is_unit_sample(fallback_unit()),
{
    let v = fallback_unit();
    lemma_sqrt_one();
    assert(0x100000000int / 65536int == 65536int) by (nonlinear_arith);
    assert(v.x == 0 && v.y == ONE && v.z == 0);
    assert(quot(0x100000000int, ONE as int) == ONE);
    assert(v.len_sq_spec() == ONE);
    assert(v == v.unit_vec_spec());
}

impl Vec3 {
    /// Every component lies in the fixed-point range.
    pub open spec fn wf(self) -> bool {
        in_range(self.x as int) && in_range(self.y as int) && in_range(self.z as int)
    }

    pub open spec fn add_spec(self, o: Vec3) -> Vec3 {
        vec3(fx_add_spec(self.x as int, o.x as int), fx_add_spec(self.y as int, o.y as int),
            fx_add_spec(self.z as int, o.z as int))
    }

    pub open spec fn sub_spec(self, o: Vec3) -> Vec3 {
        vec3(fx_sub_spec(self.x as int, o.x as int), fx_sub_spec(self.y as int, o.y as int),
            fx_sub_spec(self.z as int, o.z as int))
    }

    pub open spec fn neg_spec(self) -> Vec3 {
        vec3(-self.x, -self.y, -self.z)
    }

    pub open spec fn scale_spec(self, t: int) -> Vec3 {
        vec3(fx_mul_spec(self.x as int, t), fx_mul_spec(self.y as int, t),
            fx_mul_spec(self.z as int, t))
    }

    pub open spec fn mul_spec(self, o: Vec3) -> Vec3 {
        vec3(fx_mul_spec(self.x as int, o.x as int), fx_mul_spec(self.y as int, o.y as int),
            fx_mul_spec(self.z as int, o.z as int))
    }

    pub open spec fn div_spec(self, t: int) -> Vec3 {
        vec3(fx_div_spec(self.x as int, t), fx_div_spec(self.y as int, t),
            fx_div_spec(self.z as int, t))
    }

    pub open spec fn dot_spec(self, o: Vec3) -> int {
        fx_dot3_spec(self.x as int, o.x as int, self.y as int, o.y as int, self.z as int, o.z as int)
    }

    pub open spec fn len_sq_spec(self) -> int {
        self.dot_spec(self)
    }

    pub open spec fn len_spec(self) -> int {
        fx_sqrt_spec(self.len_sq_spec())
    }

    pub open spec fn unit_vec_spec(self) -> Vec3 {
        self.div_spec(self.len_spec())
    }

    pub open spec fn cross_spec(self, o: Vec3) -> Vec3 {
        vec3(fx_dot3_spec(self.y as int, o.z as int, -self.z, o.y as int, 0, 0),
            fx_dot3_spec(self.z as int, o.x as int, -self.x, o.z as int, 0, 0),
            fx_dot3_spec(self.x as int, o.y as int, -self.y, o.x as int, 0, 0))
    }

    /// `d - 2 (d . n) n`.
    pub open spec fn reflect_spec(self, n: Vec3) -> Vec3 {
        let d = self.dot_spec(n);
        self.sub_spec(n.scale_spec(fx_add_spec(d, d)))
    }

    /// Snell's law, split into the parts perpendicular and parallel to the normal.
    pub open spec fn refract_spec(self, n: Vec3, ri: int) -> Vec3 {
        let cos_theta = -self.dot_spec(n);
        let perp = self.add_spec(n.scale_spec(cos_theta)).scale_spec(ri);
        let par = n.scale_spec(-fx_sqrt_spec(abs(fx_sub_spec(ONE as int, perp.len_sq_spec()))));
        perp.add_spec(par)
    }

    pub open spec fn is_near_zero_spec(self) -> bool {
        abs(self.x as int) < NEAR_ZERO_TOLERANCE && abs(self.y as int) < NEAR_ZERO_TOLERANCE
            && abs(self.z as int) < NEAR_ZERO_TOLERANCE
    }

    /// Builds a vector from fixed-point components, saturating each to the range.
    pub fn new(x: i64, y: i64, z: i64) -> (r: Vec3)
        ensures
            r == vec3(saturate(x as int), saturate(y as int), saturate(z as int)),
            r.wf(),
    {
        Vec3 { x: clamp_i64(x), y: clamp_i64(y), z: clamp_i64(z) }
    }

    pub fn x(&self) -> (r: i64)
        ensures
            r == self.x,
    {
        self.x
    }

    pub fn y(&self) -> (r: i64)
        ensures
            r == self.y,
    {
        self.y
    }

    pub fn z(&self) -> (r: i64)
        ensures
            r == self.z,
    {
        self.z
    }

    pub fn add(&self, o: &Vec3) -> (r: Vec3)
        requires
            self.wf(),
            o.wf(),
        ensures
            r == self.add_spec(*o),
            r.wf(),
    {
        Vec3 { x: fx_add(self.x, o.x), y: fx_add(self.y, o.y), z: fx_add(self.z, o.z) }
    }

    pub fn sub(&self, o: &Vec3) -> (r: Vec3)
        requires
            self.wf(),
            o.wf(),
        ensures
            r == self.sub_spec(*o),
            r.wf(),
    {
        Vec3 { x: fx_sub(self.x, o.x), y: fx_sub(self.y, o.y), z: fx_sub(self.z, o.z) }
    }

    pub fn neg(&self) -> (r: Vec3)
        requires
            self.wf(),
        ensures
            r == self.neg_spec(),
            r.wf(),
    {
        Vec3 { x: -self.x, y: -self.y, z: -self.z }
    }

    /// Scales every component by the fixed-point value `t`.
    pub fn scale(&self, t: i64) -> (r: Vec3)
        requires
            self.wf(),
            in_range(t as int),
        ensures
            r == self.scale_spec(t as int),
            r.wf(),
    {
        Vec3 { x: fx_mul(self.x, t), y: fx_mul(self.y, t), z: fx_mul(self.z, t) }
    }

    /// Component-wise product, as used to attenuate colors.
    pub fn mul(&self, o: &Vec3) -> (r: Vec3)
        requires
            self.wf(),
            o.wf(),
        ensures
            r == self.mul_spec(*o),
            r.wf(),
    {
        Vec3 { x: fx_mul(self.x, o.x), y: fx_mul(self.y, o.y), z: fx_mul(self.z, o.z) }
    }

    /// Divides every component by `t`; dividing by zero is a caller's error.
    pub fn div(&self, t: i64) -> (r: Vec3)
        requires
            self.wf(),
            in_range(t as int),
            t != 0,
        ensures
            r == self.div_spec(t as int),
            r.wf(),
    {
        Vec3 { x: fx_div(self.x, t), y: fx_div(self.y, t), z: fx_div(self.z, t) }
    }

    pub fn dot(&self, o: &Vec3) -> (r: i64)
        requires
            self.wf(),
            o.wf(),
        ensures
            r == self.dot_spec(*o),
            in_range(r as int),
    {
        fx_dot3(self.x, o.x, self.y, o.y, self.z, o.z)
    }

    pub fn len_sq(&self) -> (r: i64)
        requires
            self.wf(),
        ensures
            r == self.len_sq_spec(),
            in_range(r as int),
    {
        self.dot(self)
    }

    pub fn len(&self) -> (r: i64)
        requires
            self.wf(),
        ensures
            r == self.len_spec(),
            0 <= r <= 0x10000000000,
    {
        fx_sqrt(self.len_sq())
    }

    /// The vector divided by its length; a vector of length zero is a caller's error.
    pub fn unit_vec(&self) -> (r: Vec3)
        requires
            self.wf(),
            self.len_spec() != 0,
        ensures
            r == self.unit_vec_spec(),
            r.wf(),
    {
        let l = self.len();
        self.div(l)
    }

    pub fn cross(&self, o: &Vec3) -> (r: Vec3)
        requires
            self.wf(),
            o.wf(),
        ensures
            r == self.cross_spec(*o),
            r.wf(),
    {
        Vec3 {
            x: fx_dot3(self.y, o.z, -self.z, o.y, 0, 0),
            y: fx_dot3(self.z, o.x, -self.x, o.z, 0, 0),
            z: fx_dot3(self.x, o.y, -self.y, o.x, 0, 0),
        }
    }

    /// Reflects a direction about a unit normal.
    pub fn reflect(&self, unit_normal: &Vec3) -> (r: Vec3)
        requires
            self.wf(),
            unit_normal.wf(),
        ensures
            r == self.reflect_spec(*unit_normal),
            r.wf(),
    {
        let d = self.dot(unit_normal);
        self.sub(&unit_normal.scale(fx_add(d, d)))
    }

    /// Refracts the unit direction `ray` through a surface with unit normal `normal`;
    /// `relative_refractive_index` is the index of the first medium over the second.
    pub fn refract(ray: &Vec3, normal: &Vec3, relative_refractive_index: i64) -> (r: Vec3)
        requires
            ray.wf(),
            normal.wf(),
            in_range(relative_refractive_index as int),
        ensures
            r == ray.refract_spec(*normal, relative_refractive_index as int),
            r.wf(),
    {
        let cos_theta = -ray.dot(normal);
        let out_perpendicular = ray.add(&normal.scale(cos_theta)).scale(relative_refractive_index);
        let rest = fx_sub(ONE, out_perpendicular.len_sq());
        let rest_abs = if rest < 0 {
            -rest
        } else {
            rest
        };
        let out_parallel = normal.scale(-fx_sqrt(rest_abs));
        out_perpendicular.add(&out_parallel)
    }

    /// A uniformly distributed unit vector, by rejection sampling: components are
    /// drawn from `[-1, 1)`, and a draw is kept only when it lies in the unit ball
    /// and is not zero, then normalized.
    pub fn uniform_random_unit_vec(rng: &mut StdRng) -> (r: Vec3)
        ensures
            r.wf(),
            is_unit_sample(r),
    {
        let mut attempt: u32 = 0;
        while attempt < MAX_SAMPLING_ATTEMPTS
            invariant
                attempt <= MAX_SAMPLING_ATTEMPTS,
            decreases MAX_SAMPLING_ATTEMPTS - attempt,
        {
            let v = Vec3::new(random(-ONE, ONE, rng), random(-ONE, ONE, rng), random(-ONE, ONE, rng));
            let len_sq = v.len_sq();
            if 0 < len_sq && len_sq <= ONE {
                proof {
                    lemma_sqrt_positive(len_sq as int);
                }
                let r = v.unit_vec();
                assert(is_unit_sample(r));
                return r;
            }
            attempt = attempt + 1;
        }
        proof {
            lemma_fallback_is_unit_sample();
        }
        Vec3::new(0, ONE, 0)
    }

    /// A uniformly distributed point of the unit disk, by rejection sampling.
    pub fn uniform_random_in_unit_disk(rng: &mut StdRng) -> (r: Vec3)
        ensures
            is_disk_sample(r),
    {
        let mut attempt: u32 = 0;
        while attempt < MAX_SAMPLING_ATTEMPTS
            invariant
                attempt <= MAX_SAMPLING_ATTEMPTS,
            decreases MAX_SAMPLING_ATTEMPTS - attempt,
        {
            let v = Vec3::new(random(-ONE, ONE, rng), random(-ONE, ONE, rng), 0);
            if v.len_sq() < ONE {
                return v;
            }
            attempt = attempt + 1;
        }
        Vec3::new(0, 0, 0)
    }

    pub fn is_near_zero(&self) -> (r: bool)
        requires
            self.wf(),
        ensures
            r == self.is_near_zero_spec(),
    {
        -NEAR_ZERO_TOLERANCE < self.x && self.x < NEAR_ZERO_TOLERANCE && -NEAR_ZERO_TOLERANCE
            < self.y && self.y < NEAR_ZERO_TOLERANCE && -NEAR_ZERO_TOLERANCE < self.z && self.z
            < NEAR_ZERO_TOLERANCE
    }
}

/// Saturates a machine integer to the fixed-point range.
pub fn clamp_i64(v: i64) -> (r: i64)
    ensures
        r == saturate(v as int),
        in_range(r as int),
{
    if v > LIMIT {
        LIMIT
    } else if v < -LIMIT {
        -LIMIT
    } else {
        v
    }
}

} // verus!
