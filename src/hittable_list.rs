//! A scene: a collection of spheres searched for the nearest hit.
use vstd::prelude::*;
use crate::hit::HitRecord;
use crate::interval::Interval;
use crate::ray::Ray;
use crate::sphere::Sphere;

verus! {

pub struct HittableList {
    objects: Vec<Sphere>,
}

impl View for HittableList {
    type V = Seq<Sphere>;

    closed spec fn view(&self) -> Seq<Sphere> {
        self.objects@
    }
}

/// `h` is the hit that a search of `objects` over `ray_t` must report: some
/// object reports exactly `h` on its own, no object reports a nearer hit,
/// and no earlier object reports one as near.
pub open spec fn is_nearest_hit(objects: Seq<Sphere>, ray: Ray, ray_t: Interval, h: HitRecord) -> bool {
    exists|i: int|
        #![trigger objects[i]]
        0 <= i < objects.len() && objects[i].hit_spec(ray, ray_t) == Some(h) && (forall|j: int|
            0 <= j < i ==> (#[trigger] objects[j].hit_spec(ray, ray_t) matches Some(g) ==> h.t < g.t))
            && (forall|j: int|
            0 <= j < objects.len() ==> (#[trigger] objects[j].hit_spec(ray, ray_t) matches Some(g)
                ==> h.t <= g.t))
}

/// No object of `objects` reports a hit over `ray_t`.
pub open spec fn misses_all(objects: Seq<Sphere>, ray: Ray, ray_t: Interval) -> bool {
    forall|i: int| 0 <= i < objects.len() ==> (#[trigger] objects[i].hit_spec(ray, ray_t)) is None
}

/// The search itself: each object in turn, bounded above by the nearest hit
/// found among those before it.
pub open spec fn nearest_in(objects: Seq<Sphere>, ray: Ray, ray_t: Interval) -> Option<HitRecord>
    decreases objects.len(),
{
    if objects.len() == 0 {
        None
    } else {
        let before = nearest_in(objects.drop_last(), ray, ray_t);
        let bound = match before {
            Some(h) => h.t,
            None => ray_t.max,
        };
        match objects.last().hit_spec(ray, Interval { min: ray_t.min, max: bound }) {
            Some(g) => Some(g),
            None => before,
        }
    }
}

impl HittableList {
    /// Every object's material lets through at most the light it receives.
    pub open spec fn is_passive(&self) -> bool {
        forall|i: int| 0 <= i < self@.len() ==> (#[trigger] self@[i]).material.is_passive()
    }

    pub open spec fn nearest_spec(&self, ray: Ray, ray_t: Interval) -> Option<HitRecord> {
        nearest_in(self@, ray, ray_t)
    }

    pub open spec fn wf(&self) -> bool {
        forall|i: int| 0 <= i < self@.len() ==> (#[trigger] self@[i]).wf()
    }

    pub fn new() -> (r: HittableList)
        ensures
            r@ == Seq::<Sphere>::empty(),
    {
        HittableList { objects: Vec::new() }
    }

    pub fn add(&mut self, object: Sphere)
        ensures
            final(self)@ == old(self)@.push(object),
    {
        self.objects.push(object);
    }

    /// The nearest hit of `ray` over all objects, strictly inside `ray_t`.
    /// Each object is searched only up to the nearest hit found so far.
    pub fn hit(&self, ray: &Ray, ray_t: &Interval) -> (r: Option<HitRecord>)
        requires
            self.wf(),
            ray.wf(),
        ensures
            r is None <==> misses_all(self@, *ray, *ray_t),
            r matches Some(h) ==> is_nearest_hit(self@, *ray, *ray_t, h),
            r matches Some(h) ==> h.wf() && ray_t.surrounds_spec(h.t as int),
            r == self.nearest_spec(*ray, *ray_t),
            r matches Some(h) ==> ray.dir.len_sq_spec() > 0,
            self.is_passive() ==> (r matches Some(h) ==> h.material.is_passive()),
    {
        let mut hit_result: Option<HitRecord> = None;
        let mut closest_so_far = ray_t.max();
        let ghost mut best: int = 0;
        let mut i: usize = 0;
        while i < self.objects.len()
            invariant
                self.wf(),
                ray.wf(),
                0 <= i <= self@.len(),
                self@ == self.objects@,
                closest_so_far == (match hit_result {
                    Some(h) => h.t,
                    None => ray_t.max,
                }),
                hit_result is None ==> misses_all(self@.take(i as int), *ray, *ray_t),
                hit_result matches Some(h) ==> h.wf() && ray_t.surrounds_spec(h.t as int),
                hit_result == nearest_in(self@.take(i as int), *ray, *ray_t),
                hit_result matches Some(h) ==> ray.dir.len_sq_spec() > 0,
                self.is_passive() ==> (hit_result matches Some(h) ==> h.material.is_passive()),
                hit_result matches Some(h) ==> 0 <= best < i && self@[best].hit_spec(*ray, *ray_t)
                    == Some(h) && (forall|j: int|
                    0 <= j < best ==> (#[trigger] self@[j].hit_spec(*ray, *ray_t) matches Some(g)
                        ==> h.t < g.t)) && (forall|j: int|
                    0 <= j < i ==> (#[trigger] self@[j].hit_spec(*ray, *ray_t) matches Some(g) ==> h.t
                        <= g.t)),
            decreases self@.len() - i,
        {
            let object = &self.objects[i];
            let narrowed = Interval::new(ray_t.min(), closest_so_far);
            proof {
                object.lemma_narrowed_hit(*ray, *ray_t, closest_so_far);
                assert(self@[i as int] == *object);
            }
            match object.hit(ray, &narrowed) {
                Some(hit) => {
                    closest_so_far = hit.t();
                    hit_result = Some(hit);
                    proof {
                        best = i as int;
                    }
                },
                None => {},
            }
            proof {
                assert forall|j: int| 0 <= j < i + 1 implies (self@.take(i + 1)[j] == self@[j]) by {}
                assert(self@.take(i + 1).drop_last() =~= self@.take(i as int));
                assert(self@.take(i + 1).last() == self@[i as int]);
            }
            i = i + 1;
        }
        proof {
            assert(self@.take(i as int) =~= self@);
        }
        hit_result
    }
}

} // verus!
