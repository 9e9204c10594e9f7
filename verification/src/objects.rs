//! Geometric primitives: the sphere.
//!
//! Intersection solves the quadratic `|ray.at(t) - center|^2 = radius^2`
//! in fixed-point arithmetic; the smaller root is preferred, the larger
//! one tried when the smaller lies outside the parametric interval.

use vstd::prelude::*;

use crate::fixed::add_sat;
use crate::fixed::fx_div;
use crate::fixed::fx_div_spec;
use crate::fixed::lemma_fx_div_monotone;
use crate::fixed::fx_mul;
use crate::fixed::fx_mul_spec;
use crate::fixed::fx_sqrt;
use crate::fixed::fx_sqrt_spec;
use crate::fixed::neg_sat;
use crate::fixed::sat;
use crate::fixed::sub_sat;
use crate::hittable::HitRecord;
use crate::hittable::HitV;
use crate::material::Material;
use crate::ray::Ray;
use crate::ray::RayV;
use crate::ray::ray_at_spec;
use crate::vec3::Point;
use crate::vec3::V3;
use crate::vec3::Vec3;
use crate::vec3::lemma_len_sq_nonneg;
use crate::vec3::v_div_scalar;
use crate::vec3::v_dot;
use crate::vec3::v_neg;
use crate::vec3::v_sub;

verus! {

/// A sphere; a negative radius encodes an inward-facing (hollow) surface.
pub struct Sphere {
    pub center: Point,
    pub radius: i64,
    pub material: Material,
}

/// The parameter at which a ray first strikes the sphere inside
/// `[t_min, t_max]`, if it does.  A direction too short for its squared
/// magnitude to register reports no hit: there is no root to divide out.
pub open spec fn sphere_hit_t(s: Sphere, r: RayV, t_min: int, t_max: int) -> Option<int> {
    let oc = v_sub(r.origin, s.center@);
    let a = v_dot(r.direction, r.direction);
    let half_b = v_dot(oc, r.direction);
    let c = sat(v_dot(oc, oc) - fx_mul_spec(s.radius as int, s.radius as int));
    let disc = sat(fx_mul_spec(half_b, half_b) - fx_mul_spec(a, c));
    if a == 0 || disc < 0 {
        None
    } else {
        let sq = fx_sqrt_spec(disc);
        let r1 = fx_div_spec(sat(sat(-half_b) - sq), a);
        if t_min <= r1 <= t_max {
            Some(r1)
        } else {
            let r2 = fx_div_spec(sat(sat(-half_b) + sq), a);
            if t_min <= r2 <= t_max {
                Some(r2)
            } else {
                None
            }
        }
    }
}

/// The record a sphere hit at parameter `t` produces: the outward normal
/// is flipped onto the side the ray arrived from.
pub open spec fn sphere_record(s: Sphere, r: RayV, t: int) -> HitV {
    let p = ray_at_spec(r, t);
    let outward = v_div_scalar(v_sub(p, s.center@), s.radius as int);
    let front = v_dot(r.direction, outward) < 0;
    HitV {
        p: p,
        normal: if front {
            outward
        } else {
            v_neg(outward)
        },
        t: t,
        front_face: front,
        material: s.material,
    }
}

/// A reported hit parameter lies inside the queried interval.
pub proof fn lemma_sphere_hit_in_range(s: Sphere, r: RayV, t_min: int, t_max: int)
    ensures
        sphere_hit_t(s, r, t_min, t_max) matches Some(t) ==> t_min <= t <= t_max,
{
}

/// Shrinking the upper bound can only move a sphere's reported hit
/// closer, or push it out of the interval entirely.
pub proof fn lemma_sphere_hit_shrink(s: Sphere, r: RayV, t_min: int, c1: int, c2: int, t: int)
    requires
        c1 <= c2,
        sphere_hit_t(s, r, t_min, c2) == Some(t),
    ensures
        sphere_hit_t(s, r, t_min, c1) matches Some(t1) ==> t1 <= t,
        sphere_hit_t(s, r, t_min, c1) is None ==> t > c1,
{
    let oc = v_sub(r.origin, s.center@);
    let a = v_dot(r.direction, r.direction);
    let half_b = v_dot(oc, r.direction);
    let c = sat(v_dot(oc, oc) - fx_mul_spec(s.radius as int, s.radius as int));
    let disc = sat(fx_mul_spec(half_b, half_b) - fx_mul_spec(a, c));
    assert(a != 0 && disc >= 0);
    lemma_len_sq_nonneg(r.direction);
    let sq = fx_sqrt_spec(disc);
    let n1 = sat(sat(-half_b) - sq);
    let n2 = sat(sat(-half_b) + sq);
    assert(sq >= 0);
    assert(n1 <= n2);
    lemma_fx_div_monotone(n1, n2, a);
    let r1 = fx_div_spec(n1, a);
    let r2 = fx_div_spec(n2, a);
    if t_min <= r1 <= c1 {
        assert(sphere_hit_t(s, r, t_min, c1) == Some(r1));
        assert(t == r1 || t == r2);
    } else if t_min <= r2 <= c1 {
        assert(sphere_hit_t(s, r, t_min, c1) == Some(r2));
        // the smaller root is out of [t_min, c1]; were it the reported t,
        // the larger root would have to lie above c1 as well
        assert(t == r2);
    } else {
        assert(sphere_hit_t(s, r, t_min, c1) is None);
        assert(t > c1);
    }
}

impl Sphere {
    pub fn new(center: Point, radius: i64, material: Material) -> (r: Self)
        requires
            radius != 0,
        ensures
            r.center == center,
            r.radius == radius,
            r.material == material,
    {
        Sphere { center, radius, material }
    }

    /// Intersect with `ray` inside `[t_min, t_max]`.
    pub fn hit(&self, ray: &Ray, t_min: i64, t_max: i64) -> (r: Option<HitRecord>)
        requires
            self.radius != 0,
        ensures
            r is Some <==> sphere_hit_t(*self, ray@, t_min as int, t_max as int) is Some,
            r matches Some(h) ==> sphere_hit_t(*self, ray@, t_min as int, t_max as int) == Some(
                h@.t,
            ) && h@ == sphere_record(*self, ray@, h@.t) && h@.material == self.material,
    {
        let oc: Vec3 = ray.origin().sub(&self.center);
        let a: i64 = ray.direction().dot(ray.direction());
        let half_b: i64 = oc.dot(ray.direction());
        let c: i64 = sub_sat(oc.dot(&oc), fx_mul(self.radius, self.radius));
        let disc: i64 = sub_sat(fx_mul(half_b, half_b), fx_mul(a, c));
        if a == 0 || disc < 0 {
            return None;
        }
        let sq: i64 = fx_sqrt(disc);
        let mut root: i64 = fx_div(sub_sat(neg_sat(half_b), sq), a);
        if root < t_min || root > t_max {
            root = fx_div(add_sat(neg_sat(half_b), sq), a);
            if root < t_min || root > t_max {
                return None;
            }
        }
        Some(self.record_at(ray, root))
    }

    /// The hit record at a known root `t`.
    fn record_at(&self, ray: &Ray, t: i64) -> (h: HitRecord)
        requires
            self.radius != 0,
        ensures
            h@ == sphere_record(*self, ray@, t as int),
    {
        let p: Point = ray.at(t);
        let outward: Vec3 = p.sub(&self.center).div_scalar(self.radius);
        let front: bool = ray.direction().dot(&outward) < 0;
        let normal: Vec3 = if front {
            outward
        } else {
            outward.neg()
        };
        HitRecord { p, normal, t, front_face: front, material: self.material }
    }
}

} // verus!
