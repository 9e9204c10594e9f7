//! Hit records and the scene aggregate.
//!
//! The aggregate walks its objects in order, shrinking the upper
//! parametric bound to the best hit found so far, and so reports the
//! nearest valid hit.

use vstd::prelude::*;

use crate::material::Material;
use crate::material::material_wf;
use crate::objects::Sphere;
use crate::objects::lemma_sphere_hit_in_range;
use crate::objects::lemma_sphere_hit_shrink;
use crate::objects::sphere_hit_t;
use crate::objects::sphere_record;
use crate::ray::Ray;
use crate::ray::RayV;
use crate::vec3::Point;
use crate::vec3::V3;
use crate::vec3::Vec3;

verus! {

/// Model of a hit record.
pub ghost struct HitV {
    pub p: V3,
    pub normal: V3,
    pub t: int,
    pub front_face: bool,
    pub material: Material,
}

/// The result of a successful intersection: point, orientation-corrected
/// normal, parametric distance, side flag and the struck material.
#[derive(Clone, Copy, Debug)]
pub struct HitRecord {
    pub p: Point,
    pub normal: Vec3,
    pub t: i64,
    pub front_face: bool,
    pub material: Material,
}

impl View for HitRecord {
    type V = HitV;

    open spec fn view(&self) -> HitV {
        HitV {
            p: self.p@,
            normal: self.normal@,
            t: self.t as int,
            front_face: self.front_face,
            material: self.material,
        }
    }
}

/// An ordered collection of primitives queried as one composite.
pub struct HittableList {
    pub objects: Vec<Sphere>,
}

/// Every member has a nonzero radius and a well-formed material.
pub open spec fn list_wf(objs: Seq<Sphere>) -> bool {
    forall|k: int|
        0 <= k < objs.len() ==> (#[trigger] objs[k]).radius != 0 && material_wf(objs[k].material)
}

/// The aggregate's answer, walking the members from `i` on with the
/// closest hit so far in `best` and its parameter as the upper bound
/// `closest`.
pub open spec fn list_hit_from(
    objs: Seq<Sphere>,
    i: nat,
    r: RayV,
    t_min: int,
    closest: int,
    best: Option<HitV>,
) -> Option<HitV>
    decreases objs.len() - i,
{
    if i >= objs.len() {
        best
    } else {
        match sphere_hit_t(objs[i as int], r, t_min, closest) {
            Some(t) => list_hit_from(
                objs,
                i + 1,
                r,
                t_min,
                t,
                Some(sphere_record(objs[i as int], r, t)),
            ),
            None => list_hit_from(objs, i + 1, r, t_min, closest, best),
        }
    }
}

/// The nearest hit of the whole collection within `[t_min, t_max]`.
pub open spec fn list_hit(objs: Seq<Sphere>, r: RayV, t_min: int, t_max: int) -> Option<HitV> {
    list_hit_from(objs, 0, r, t_min, t_max, None)
}

/// The aggregate's answer always carries a well-formed material.
pub proof fn lemma_list_hit_from_wf(
    objs: Seq<Sphere>,
    i: nat,
    r: RayV,
    t_min: int,
    closest: int,
    best: Option<HitV>,
)
    requires
        list_wf(objs),
        best matches Some(b) ==> material_wf(b.material),
    ensures
        list_hit_from(objs, i, r, t_min, closest, best) matches Some(h) ==> material_wf(h.material),
    decreases objs.len() - i,
{
    if i < objs.len() {
        match sphere_hit_t(objs[i as int], r, t_min, closest) {
            Some(t) => {
                lemma_list_hit_from_wf(
                    objs,
                    i + 1,
                    r,
                    t_min,
                    t,
                    Some(sphere_record(objs[i as int], r, t)),
                );
            },
            None => {
                lemma_list_hit_from_wf(objs, i + 1, r, t_min, closest, best);
            },
        }
    }
}

/// The walk from `i` on returns the nearest hit: no member hit on the
/// current interval lies closer than the answer.
pub proof fn lemma_list_hit_from_closest(
    objs: Seq<Sphere>,
    i: nat,
    r: RayV,
    t_min: int,
    closest: int,
    best: Option<HitV>,
)
    requires
        best matches Some(b) ==> b.t <= closest,
    ensures
        best is Some ==> list_hit_from(objs, i, r, t_min, closest, best) is Some,
        list_hit_from(objs, i, r, t_min, closest, best) matches Some(h) ==> h.t <= closest,
        forall|j: int|
            i <= j < objs.len() && (#[trigger] sphere_hit_t(objs[j], r, t_min, closest)) is Some
                ==> list_hit_from(objs, i, r, t_min, closest, best) is Some && list_hit_from(
                objs,
                i,
                r,
                t_min,
                closest,
                best,
            )->Some_0.t <= sphere_hit_t(objs[j], r, t_min, closest)->Some_0,
    decreases objs.len() - i,
{
    if i < objs.len() {
        let s0 = objs[i as int];
        let res = list_hit_from(objs, i, r, t_min, closest, best);
        match sphere_hit_t(s0, r, t_min, closest) {
            Some(ti) => {
                lemma_sphere_hit_in_range(s0, r, t_min, closest);
                let rec = sphere_record(s0, r, ti);
                lemma_list_hit_from_closest(objs, i + 1, r, t_min, ti, Some(rec));
                assert forall|j: int|
                    i <= j < objs.len() && (#[trigger] sphere_hit_t(
                        objs[j],
                        r,
                        t_min,
                        closest,
                    )) is Some implies res is Some && res->Some_0.t <= sphere_hit_t(
                    objs[j],
                    r,
                    t_min,
                    closest,
                )->Some_0 by {
                    if j > i {
                        let tj = sphere_hit_t(objs[j], r, t_min, closest)->Some_0;
                        lemma_sphere_hit_shrink(objs[j], r, t_min, ti, closest, tj);
                    }
                }
            },
            None => {
                lemma_list_hit_from_closest(objs, i + 1, r, t_min, closest, best);
            },
        }
    }
}

/// The scene aggregate returns the closest hit: whenever any member
/// reports a hit on `[t_min, t_max]`, the aggregate reports one, and its
/// parameter is no larger than any member's.
pub proof fn lemma_list_hit_closest(objs: Seq<Sphere>, r: RayV, t_min: int, t_max: int)
    ensures
        list_hit(objs, r, t_min, t_max) matches Some(h) ==> h.t <= t_max,
        forall|j: int|
            0 <= j < objs.len() && (#[trigger] sphere_hit_t(objs[j], r, t_min, t_max)) is Some
                ==> list_hit(objs, r, t_min, t_max) is Some && list_hit(
                objs,
                r,
                t_min,
                t_max,
            )->Some_0.t <= sphere_hit_t(objs[j], r, t_min, t_max)->Some_0,
{
    lemma_list_hit_from_closest(objs, 0, r, t_min, t_max, None);
}

impl HittableList {
    pub open spec fn wf(&self) -> bool {
        list_wf(self.objects@)
    }

    pub fn new() -> (r: Self)
        ensures
            r.objects@.len() == 0,
            r.wf(),
    {
        HittableList { objects: Vec::new() }
    }

    /// Append one object; membership and order are preserved.
    pub fn add(&mut self, object: Sphere)
        requires
            object.radius != 0,
            material_wf(object.material),
        ensures
            final(self).objects@ == old(self).objects@.push(object),
            old(self).wf() ==> final(self).wf(),
    {
        self.objects.push(object);
        proof {
            if old(self).wf() {
                assert forall|k: int|
                    0 <= k < self.objects@.len() implies (#[trigger] self.objects@[k]).radius != 0
                    && material_wf(self.objects@[k].material) by {
                    if k < old(self).objects@.len() {
                        assert(old(self).objects@[k].radius != 0 && material_wf(
                            old(self).objects@[k].material,
                        ));
                        assert(self.objects@[k] == old(self).objects@[k]);
                    } else {
                        assert(self.objects@[k] == object);
                    }
                }
            }
        }
    }

    /// The nearest member hit within `[t_min, t_max]`, if any.
    pub fn hit(&self, ray: &Ray, t_min: i64, t_max: i64) -> (r: Option<HitRecord>)
        requires
            self.wf(),
        ensures
            r is Some <==> list_hit(self.objects@, ray@, t_min as int, t_max as int) is Some,
            r matches Some(h) ==> list_hit(self.objects@, ray@, t_min as int, t_max as int)
                == Some(h@) && material_wf(h@.material),
    {
        let ghost objs = self.objects@;
        let mut best: Option<HitRecord> = None;
        let mut closest: i64 = t_max;
        let mut i: usize = 0;
        while i < self.objects.len()
            invariant
                self.wf(),
                objs == self.objects@,
                i <= self.objects.len(),
                list_hit(objs, ray@, t_min as int, t_max as int) == list_hit_from(
                    objs,
                    i as nat,
                    ray@,
                    t_min as int,
                    closest as int,
                    match best {
                        Some(h) => Some(h@),
                        None => None,
                    },
                ),
            decreases self.objects.len() - i,
        {
            let s: &Sphere = &self.objects[i];
            match s.hit(ray, t_min, closest) {
                Some(h) => {
                    closest = h.t;
                    best = Some(h);
                },
                None => {},
            }
            i = i + 1;
        }
        proof {
            if best is Some {
                lemma_list_hit_from_wf(objs, 0, ray@, t_min as int, t_max as int, None);
            }
        }
        best
    }
}

} // verus!
