//! What a successful ray–surface intersection reports.
use vstd::prelude::*;
use crate::fixed::in_range;
use crate::material::Material;
use crate::ray::Ray;
use crate::vec3::Vec3;

verus! {

#[derive(Clone, Copy, Debug, PartialEq, Eq, Structural)]
pub struct HitRecord {
    pub point: Vec3,
    /// The unit normal, turned to face against the incoming ray.
    pub normal: Vec3,
    pub t: i64,
    /// Whether the ray arrived from outside the surface.
    pub front_face: bool,
    pub material: Material,
}

impl HitRecord {
    /// The record for a hit at `point`, where the surface's outward normal is
    /// `outward_normal`: the stored normal is the outward one when the ray
    /// comes from outside (its direction points against the normal), and its
    /// negation otherwise.
    pub open spec fn new_spec(point: Vec3, ray: Ray, t: int, outward_normal: Vec3, material: Material) -> HitRecord {
        let front_face = ray.dir.dot_spec(outward_normal) < 0;
        HitRecord {
            point,
            normal: if front_face {
                outward_normal
            } else {
                outward_normal.neg_spec()
            },
            t: t as i64,
            front_face,
            material,
        }
    }

    /// A ray whose direction points against the outward normal arrives from
    /// outside and keeps that normal; any other ray arrives from inside and
    /// gets the normal negated.
    pub proof fn lemma_front_face(point: Vec3, ray: Ray, t: int, outward_normal: Vec3, material: Material)
        ensures
            ({
                let rec = HitRecord::new_spec(point, ray, t, outward_normal, material);
                &&& ray.dir.dot_spec(outward_normal) < 0 ==> rec.front_face && rec.normal == outward_normal
                &&& ray.dir.dot_spec(outward_normal) >= 0 ==> !rec.front_face && rec.normal
                    == outward_normal.neg_spec()
            }),
    {
    }

    pub open spec fn wf(self) -> bool {
        self.point.wf() && self.normal.wf() && in_range(self.t as int) && self.material.wf()
    }

    pub fn new(point: &Vec3, ray: &Ray, t: i64, outward_normal: &Vec3, material: Material) -> (r: HitRecord)
        requires
            ray.wf(),
            outward_normal.wf(),
        ensures
            r == HitRecord::new_spec(*point, *ray, t as int, *outward_normal, material),
    {
        let front_face = ray.dir().dot(outward_normal) < 0;
        HitRecord {
            point: *point,
            normal: if front_face {
                *outward_normal
            } else {
                outward_normal.neg()
            },
            t,
            front_face,
            material,
        }
    }

    pub fn point(&self) -> (r: &Vec3)
        ensures
            *r == self.point,
    {
        &self.point
    }

    pub fn normal(&self) -> (r: &Vec3)
        ensures
            *r == self.normal,
    {
        &self.normal
    }

    pub fn t(&self) -> (r: i64)
        ensures
            r == self.t,
    {
        self.t
    }

    pub fn front_face(&self) -> (r: bool)
        ensures
            r == self.front_face,
    {
        self.front_face
    }

    pub fn material(&self) -> (r: Material)
        ensures
            r == self.material,
    {
        self.material
    }
}

} // verus!
