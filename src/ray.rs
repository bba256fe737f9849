//! Rays: an origin and a direction.
use vstd::prelude::*;
use crate::fixed::in_range;
use crate::vec3::Vec3;

verus! {

#[derive(Clone, Copy, Debug, PartialEq, Eq, Structural)]
pub struct Ray {
    pub orig: Vec3,
    pub dir: Vec3,
}

impl Ray {
    pub open spec fn wf(self) -> bool {
        self.orig.wf() && self.dir.wf()
    }

    /// The point `orig + t * dir`.
    pub open spec fn at_spec(self, t: int) -> Vec3 {
        self.orig.add_spec(self.dir.scale_spec(t))
    }

    pub fn new(orig: Vec3, dir: Vec3) -> (r: Ray)
        ensures
            r.orig == orig,
            r.dir == dir,
    {
        Ray { orig, dir }
    }

    pub fn at(&self, t: i64) -> (r: Vec3)
        requires
            self.wf(),
            in_range(t as int),
        ensures
            r == self.at_spec(t as int),
            r.wf(),
    {
        self.orig.add(&self.dir.scale(t))
    }

    pub fn orig(&self) -> (r: &Vec3)
        ensures
            *r == self.orig,
    {
        &self.orig
    }

    pub fn dir(&self) -> (r: &Vec3)
        ensures
            *r == self.dir,
    {
        &self.dir
    }
}

} // verus!
