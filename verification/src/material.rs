//! Materials and their scatter policy.
//!
//! A material, given an incoming ray and a hit record, may produce an
//! attenuation color and a scattered outgoing ray, or decline (absorb).
//! Under a deterministic draw stream the whole outcome is pinned by
//! `spec_scatter`; under an external source, the contracts state what
//! holds of every outcome.

use vstd::prelude::*;

use crate::fixed::SCALE;
use crate::fixed::abs_sat;
use crate::fixed::add_sat;
use crate::fixed::fx_div;
use crate::fixed::fx_div_spec;
use crate::fixed::fx_mul;
use crate::fixed::fx_mul_spec;
use crate::fixed::fx_sqrt;
use crate::fixed::fx_sqrt_spec;
use crate::fixed::neg_sat;
use crate::fixed::s_abs;
use crate::fixed::sat;
use crate::fixed::sub_sat;
use crate::hittable::HitRecord;
use crate::hittable::HitV;
use crate::math::RngSource;
use crate::math::near_zero;
use crate::math::random_in_unit_sphere;
use crate::math::random_unit_vector;
use crate::math::spec_sphere_sample;
use crate::math::spec_unit_vector;
use crate::math::stream_draw;
use crate::math::stream_next;
use crate::math::unit_scalar_of;
use crate::math::REJECT_CAP;
use crate::ray::Ray;
use crate::ray::RayV;
use crate::vec3::Color;
use crate::vec3::V3;
use crate::vec3::Vec3;
use crate::vec3::v_add;
use crate::vec3::v_dot;
use crate::vec3::v_is_zero;
use crate::vec3::v_len;
use crate::vec3::v_len_sq;
use crate::vec3::v_neg;
use crate::vec3::v_scale;
use crate::vec3::v_sub;
use crate::vec3::v_unit;

verus! {

/// The closed set of light-transport models.
#[derive(Clone, Copy, PartialEq, Eq, Structural, Debug)]
pub enum Material {
    /// Ideal diffuse reflector.
    Lambertian { albedo: Color },
    /// Specular reflector with roughness `fuzz` in `[0, 1]`.
    Metal { albedo: Color, fuzz: i64 },
    /// Transparent refractor with a positive refractive index.
    Dielectric { refractive_index: i64 },
}

/// The structural conditions the scatter contracts rest on.
pub open spec fn material_wf(m: Material) -> bool {
    match m {
        Material::Lambertian { albedo } => true,
        Material::Metal { albedo, fuzz } => 0 <= fuzz <= SCALE,
        Material::Dielectric { refractive_index } => refractive_index > 0,
    }
}

/// Mirror reflection of `v` about the normal `n`: `v - 2 (v . n) n`.
pub open spec fn reflect_spec(v: V3, n: V3) -> V3 {
    v_sub(v, v_scale(sat(2 * v_dot(v, n)), n))
}

/// `v - 2 (v . n) n`.
pub fn reflect(v: &Vec3, n: &Vec3) -> (r: Vec3)
    ensures
        r@ == reflect_spec(v@, n@),
{
    let d: i64 = v.dot(n);
    v.sub(&n.scale(add_sat(d, d)))
}

/// The cosine a dielectric works with: `(-uv) . n`, capped at one.
pub open spec fn cos_capped(uv: V3, n: V3) -> int {
    let c0 = v_dot(v_neg(uv), n);
    if c0 > SCALE as int {
        SCALE as int
    } else {
        c0
    }
}

/// Snell refraction of the unit direction `uv` about `n` with the given
/// index ratio, robust against rounding past one.
pub open spec fn refract_spec(uv: V3, n: V3, ratio: int) -> V3 {
    let cos = cos_capped(uv, n);
    let perp = v_scale(ratio, v_add(uv, v_scale(cos, n)));
    let par_len = fx_sqrt_spec(sat(s_abs(sat(SCALE as int - v_len_sq(perp)))));
    v_add(perp, v_scale(sat(-par_len), n))
}

/// Snell's law in vector form.
pub fn refract(uv: &Vec3, n: &Vec3, ratio: i64) -> (r: Vec3)
    ensures
        r@ == refract_spec(uv@, n@, ratio as int),
{
    let c0: i64 = uv.neg().dot(n);
    let cos: i64 = if c0 > SCALE {
        SCALE
    } else {
        c0
    };
    let perp: Vec3 = uv.add(&n.scale(cos)).scale(ratio);
    let par_len: i64 = fx_sqrt(abs_sat(sub_sat(SCALE, perp.length_squared())));
    perp.add(&n.scale(neg_sat(par_len)))
}

/// The Schlick base reflectance `((1 - ratio) / (1 + ratio))^2`.
pub open spec fn schlick_r0_spec(ratio: int) -> int {
    let q = fx_div_spec(sat(SCALE as int - ratio), sat(SCALE as int + ratio));
    fx_mul_spec(q, q)
}

/// The Schlick reflectance `r0 + (1 - r0) (1 - cos)^5`.
pub open spec fn schlick_spec(cos: int, ratio: int) -> int {
    let r0 = schlick_r0_spec(ratio);
    let x = sat(SCALE as int - cos);
    let x2 = fx_mul_spec(x, x);
    let x4 = fx_mul_spec(x2, x2);
    let x5 = fx_mul_spec(x4, x);
    sat(r0 + fx_mul_spec(sat(SCALE as int - r0), x5))
}

/// Schlick's closed-form estimate of the Fresnel reflectance.
pub fn schlick_reflectance(cos: i64, ratio: i64) -> (r: i64)
    requires
        ratio >= 0,
    ensures
        r as int == schlick_spec(cos as int, ratio as int),
{
    let denom: i64 = add_sat(SCALE, ratio);
    let q: i64 = fx_div(sub_sat(SCALE, ratio), denom);
    let r0: i64 = fx_mul(q, q);
    let x: i64 = sub_sat(SCALE, cos);
    let x2: i64 = fx_mul(x, x);
    let x4: i64 = fx_mul(x2, x2);
    let x5: i64 = fx_mul(x4, x);
    add_sat(r0, fx_mul(sub_sat(SCALE, r0), x5))
}

/// The index ratio a dielectric refracts with on this side of the surface.
pub open spec fn dielectric_ratio(refractive_index: int, front_face: bool) -> int {
    if front_face {
        fx_div_spec(SCALE as int, refractive_index)
    } else {
        refractive_index
    }
}

/// The sine the total-internal-reflection test uses.
pub open spec fn dielectric_sin(rin: RayV, hv: HitV) -> int {
    let cos = cos_capped(v_unit(rin.direction), hv.normal);
    fx_sqrt_spec(sat(s_abs(sat(SCALE as int - fx_mul_spec(cos, cos)))))
}

/// Whether refraction is impossible and reflection is forced.
pub open spec fn dielectric_tir(m: Material, rin: RayV, hv: HitV) -> bool {
    match m {
        Material::Dielectric { refractive_index } => fx_mul_spec(
            dielectric_ratio(refractive_index as int, hv.front_face),
            dielectric_sin(rin, hv),
        ) > SCALE as int,
        _ => false,
    }
}

/// The exact scatter outcome and cursor advance under a draw stream.
pub open spec fn spec_scatter(m: Material, rin: RayV, hv: HitV, vals: Seq<u64>, i: nat) -> (
    Option<(V3, RayV)>,
    nat,
) {
    match m {
        Material::Lambertian { albedo } => {
            let (u, i1) = spec_unit_vector(vals, i);
            let d0 = v_add(hv.normal, u);
            let d = if v_is_zero(d0) {
                hv.normal
            } else {
                d0
            };
            (Some((albedo@, RayV { origin: hv.p, direction: d })), i1)
        },
        Material::Metal { albedo, fuzz } => {
            let (s, i1) = spec_sphere_sample(vals, i, REJECT_CAP as nat);
            let refl = reflect_spec(v_unit(rin.direction), hv.normal);
            let dir = v_add(refl, v_scale(fuzz as int, s));
            if v_dot(dir, hv.normal) > 0 {
                (Some((albedo@, RayV { origin: hv.p, direction: dir })), i1)
            } else {
                (None, i1)
            }
        },
        Material::Dielectric { refractive_index } => {
            let ratio = dielectric_ratio(refractive_index as int, hv.front_face);
            let uv = v_unit(rin.direction);
            let white = V3 { x: SCALE as int, y: SCALE as int, z: SCALE as int };
            if dielectric_tir(m, rin, hv) {
                (Some((white, RayV { origin: hv.p, direction: reflect_spec(uv, hv.normal) })), i)
            } else {
                let u = unit_scalar_of(stream_draw(vals, i));
                let i1 = stream_next(vals, i);
                let dir = if schlick_spec(cos_capped(uv, hv.normal), ratio) > u {
                    reflect_spec(uv, hv.normal)
                } else {
                    refract_spec(uv, hv.normal, ratio)
                };
                (Some((white, RayV { origin: hv.p, direction: dir })), i1)
            }
        },
    }
}

/// The model of an exec scatter outcome.
pub open spec fn scatter_view(r: Option<(Color, Ray)>) -> Option<(V3, RayV)> {
    match r {
        Some((c, ray)) => Some((c@, ray@)),
        None => None,
    }
}

/// Against the upward unit normal, mirror reflection preserves the
/// incidence angle: the reflected direction makes the same (positive)
/// angle with the normal as the reversed incoming direction.  The
/// premise admits every direction whose doubled projection still fits a
/// scalar -- any unit-scale direction by a huge margin; at the excluded
/// extremes the projection saturates and the equality genuinely fails.
pub proof fn lemma_metal_reflection_about_y(v: V3)
    requires
        -0x3fffffffffffffff <= v.y <= 0x3fffffffffffffff,
    ensures
        ({
            let n = V3 { x: 0int, y: SCALE as int, z: 0int };
            v_dot(reflect_spec(v, n), n) == v_dot(v_neg(v), n)
        }),
{
    let n = V3 { x: 0int, y: SCALE as int, z: 0int };
    crate::fixed::lemma_tdiv_cancel(v.y);
    assert(v_dot(v, n) == v.y);
    let k = sat(2 * v.y);
    assert(k == 2 * v.y);
    crate::fixed::lemma_tdiv_cancel(k);
    let refl = reflect_spec(v, n);
    assert(refl.y == sat(v.y - k));
    crate::fixed::lemma_tdiv_cancel(refl.y);
    assert(v_dot(refl, n) == refl.y);
    crate::fixed::lemma_tdiv_cancel(sat(-v.y));
    assert(v_dot(v_neg(v), n) == sat(-v.y));
}

/// At normal incidence the Schlick reflectance collapses to its base
/// value `r0`.
pub proof fn lemma_schlick_normal_incidence(ratio: int)
    ensures
        schlick_spec(SCALE as int, ratio) == schlick_r0_spec(ratio),
{
    let r0 = schlick_r0_spec(ratio);
    assert(sat(SCALE as int - SCALE as int) == 0);
    assert(fx_mul_spec(0, 0) == 0);
    assert(fx_mul_spec(sat(SCALE as int - r0), 0) == 0);
    assert(sat(r0 + 0) == r0);
}

/// One scatter of `m` on the hit `hit` of `ray_in`.
pub fn scatter(m: &Material, ray_in: &Ray, hit: &HitRecord, rng: &mut RngSource) -> (r: Option<
    (Color, Ray),
>)
    requires
        material_wf(*m),
        v_len(ray_in@.direction) > 0,
    ensures
        final(rng).external == old(rng).external,
        final(rng).values == old(rng).values,
        old(rng).external ==> final(rng).index == old(rng).index,
        !old(rng).external ==> ({
            let (s, j) = spec_scatter(*m, ray_in@, hit@, old(rng).values@, old(rng).index as nat);
            scatter_view(r) == s && final(rng).index as nat == j
        }),
        r matches Some((att, sc)) ==> sc@.origin == hit@.p,
        m matches Material::Lambertian { albedo } ==> r is Some,
        m matches Material::Lambertian { albedo } ==> (r matches Some((att, sc)) ==> att@
            == albedo@),
        m matches Material::Metal { albedo, fuzz } ==> (r matches Some((att, sc)) ==> att@
            == albedo@ && v_dot(sc@.direction, hit@.normal) > 0),
        m matches Material::Metal { albedo, fuzz } && fuzz == 0 ==> ({
            let refl = reflect_spec(v_unit(ray_in@.direction), hit@.normal);
            (r is Some <==> v_dot(refl, hit@.normal) > 0) && (r matches Some((att, sc))
                ==> sc@.direction == refl)
        }),
        m matches Material::Dielectric { refractive_index } ==> r is Some,
        m matches Material::Dielectric { refractive_index } ==> (r matches Some((att, sc)) ==> att@
            == (V3 { x: SCALE as int, y: SCALE as int, z: SCALE as int })),
        dielectric_tir(*m, ray_in@, hit@) ==> (r matches Some((att, sc)) ==> sc@.direction
            == reflect_spec(v_unit(ray_in@.direction), hit@.normal)),
{
    match *m {
        Material::Lambertian { albedo } => {
            let u: Vec3 = random_unit_vector(rng);
            let d0: Vec3 = hit.normal.add(&u);
            let d: Vec3 = if near_zero(&d0) {
                hit.normal
            } else {
                d0
            };
            Some((albedo, Ray::new(hit.p, d)))
        },
        Material::Metal { albedo, fuzz } => {
            let refl: Vec3 = reflect(&ray_in.direction().unit(), &hit.normal);
            let s: Vec3 = random_in_unit_sphere(rng);
            let dir: Vec3 = refl.add(&s.scale(fuzz));
            if dir.dot(&hit.normal) > 0 {
                Some((albedo, Ray::new(hit.p, dir)))
            } else {
                None
            }
        },
        Material::Dielectric { refractive_index } => {
            let ratio: i64 = if hit.front_face {
                fx_div(SCALE, refractive_index)
            } else {
                refractive_index
            };
            proof {
                assert(ratio >= 0);
            }
            let uv: Vec3 = ray_in.direction().unit();
            let c0: i64 = uv.neg().dot(&hit.normal);
            let cos: i64 = if c0 > SCALE {
                SCALE
            } else {
                c0
            };
            let sin: i64 = fx_sqrt(abs_sat(sub_sat(SCALE, fx_mul(cos, cos))));
            let dir: Vec3 = if fx_mul(ratio, sin) > SCALE {
                reflect(&uv, &hit.normal)
            } else {
                let u: i64 = rng.random_unit_scalar();
                if schlick_reflectance(cos, ratio) > u {
                    reflect(&uv, &hit.normal)
                } else {
                    refract(&uv, &hit.normal, ratio)
                }
            };
            Some((Vec3::new(SCALE, SCALE, SCALE), Ray::new(hit.p, dir)))
        },
    }
}

} // verus!
