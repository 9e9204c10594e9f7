//! Rays: an origin point and a direction vector, with parametric
//! evaluation `at(t) = origin + t * direction`.

use vstd::prelude::*;

use crate::fixed::SCALE;
use crate::fixed::add_sat;
use crate::fixed::fx_mul;
use crate::fixed::fx_div_spec;
use crate::fixed::lemma_tdiv_cancel;
use crate::fixed::fx_mul_spec;
use crate::fixed::s_abs;
use crate::fixed::sat;
use crate::fixed::tdiv;
use crate::hittable::HittableList;
use crate::hittable::list_hit;
use crate::material::scatter;
use crate::material::spec_scatter;
use crate::math::RngSource;
use crate::objects::Sphere;
use crate::vec3::Color;
use crate::vec3::Point;
use crate::vec3::V3;
use crate::vec3::Vec3;
use crate::vec3::v_add;
use crate::vec3::v_len;
use crate::vec3::v_len_sq;
use crate::vec3::v_mul_comp;
use crate::vec3::v_scale;
use crate::vec3::v_sub;
use crate::vec3::v_unit;
use vstd::arithmetic::div_mod::lemma_div_multiples_vanish;

verus! {

/// The least parametric distance at which an intersection counts;
/// keeping it above zero suppresses spurious self-intersections at a
/// ray's origin on the surface it just left.
pub const MIN_INTERSECTION_DISTANCE: i64 = 100;

/// Model of a ray.
pub ghost struct RayV {
    pub origin: V3,
    pub direction: V3,
}

/// An immutable ray.
#[derive(Clone, Copy, Debug)]
pub struct Ray {
    pub origin: Point,
    pub direction: Vec3,
}

impl View for Ray {
    type V = RayV;

    open spec fn view(&self) -> RayV {
        RayV { origin: self.origin@, direction: self.direction@ }
    }
}

/// The point the ray reaches at parameter `t`.
pub open spec fn ray_at_spec(r: RayV, t: int) -> V3 {
    v_add(r.origin, v_scale(t, r.direction))
}

impl Ray {
    pub fn new(origin: Point, direction: Vec3) -> (r: Self)
        ensures
            r@ == (RayV { origin: origin@, direction: direction@ }),
    {
        Self { origin, direction }
    }

    pub fn at(&self, t: i64) -> (r: Point)
        ensures
            r@ == ray_at_spec(self@, t as int),
    {
        self.origin.add(&self.direction.scale(t))
    }

    pub fn direction(&self) -> (r: &Vec3)
        ensures
            r@ == self@.direction,
    {
        &self.direction
    }

    pub fn origin(&self) -> (r: &Point)
        ensures
            r@ == self@.origin,
    {
        &self.origin
    }

    /// The recursive path radiance estimate: depth-limited, with the
    /// fixed gradient standing in for an environment light.  A scattered
    /// ray too short to trace further is absorbed.
    pub fn color(&self, world: &HittableList, depth: i64, rng: &mut RngSource) -> (c: Color)
        requires
            world.wf(),
            v_len(self@.direction) > 0,
        ensures
            final(rng).external == old(rng).external,
            final(rng).values == old(rng).values,
            old(rng).external ==> final(rng).index == old(rng).index,
            depth <= 0 ==> c@ == black_v3(),
            depth > 0 && list_hit(
                world.objects@,
                self@,
                MIN_INTERSECTION_DISTANCE as int,
                i64::MAX as int,
            ) is None ==> c@ == background_spec(self@) && *final(rng) == *old(rng) && 500000
                <= c@.x <= SCALE as int && 700000 <= c@.y <= SCALE as int && c@.z == SCALE as int,
            !old(rng).external ==> ({
                let (v, j) = spec_color(
                    self@,
                    world.objects@,
                    depth as int,
                    old(rng).values@,
                    old(rng).index as nat,
                );
                c@ == v && final(rng).index as nat == j
            }),
        decreases depth,
    {
        if depth <= 0 {
            return Vec3::zero();
        }
        match world.hit(self, MIN_INTERSECTION_DISTANCE, i64::MAX) {
            Some(h) => {
                match scatter(&h.material, self, &h, rng) {
                    Some(pair) => {
                        let (att, sray): (Color, Ray) = pair;
                        if sray.direction().length() == 0 {
                            Vec3::zero()
                        } else {
                            att.mul_comp(&sray.color(world, depth - 1, rng))
                        }
                    },
                    None => Vec3::zero(),
                }
            },
            None => background(self),
        }
    }
}

/// The black that exhausted or absorbed paths contribute.
pub open spec fn black_v3() -> V3 {
    V3 { x: 0int, y: 0int, z: 0int }
}

/// The vertical background gradient a missed ray samples: white at the
/// bottom, sky blue at the top.  Normalization of a coarse direction can
/// overshoot one, so the unit `y` is clamped into `[-1, 1]` before the
/// blend; the gradient then never leaves the white-to-sky gamut.
pub open spec fn background_spec(r: RayV) -> V3 {
    let u = v_unit(r.direction);
    let cy = if u.y > SCALE as int {
        SCALE as int
    } else if u.y < -(SCALE as int) {
        -(SCALE as int)
    } else {
        u.y
    };
    let t = fx_mul_spec(500000, sat(cy + SCALE as int));
    v_add(
        v_scale(sat(SCALE as int - t), V3 { x: SCALE as int, y: SCALE as int, z: SCALE as int }),
        v_scale(t, V3 { x: 500000int, y: 700000int, z: SCALE as int }),
    )
}

/// The gradient interpolates between white and the sky color, so each
/// channel stays between its two endpoints, the blue channel exactly at
/// full intensity.
pub proof fn lemma_background_gamut(r: RayV)
    ensures
        500000 <= background_spec(r).x <= SCALE as int,
        700000 <= background_spec(r).y <= SCALE as int,
        background_spec(r).z == SCALE as int,
{
    let s = SCALE as int;
    let u = v_unit(r.direction);
    let cy = if u.y > s {
        s
    } else if u.y < -s {
        -s
    } else {
        u.y
    };
    let v = sat(cy + s);
    assert(0 <= v <= 2 * s);
    let t = fx_mul_spec(500000, v);
    assert(tdiv(500000 * v, s) == (500000 * v) / s);
    vstd::arithmetic::div_mod::lemma_fundamental_div_mod(500000 * v, s);
    vstd::arithmetic::div_mod::lemma_mod_bound(500000 * v, s);
    assert(0 <= t <= s);
    lemma_tdiv_cancel(s - t);
    lemma_tdiv_cancel(t);
    let h_x = tdiv(t * 500000, s);
    let h_y = tdiv(t * 700000, s);
    assert(h_x == (t * 500000) / s);
    assert(h_y == (t * 700000) / s);
    vstd::arithmetic::div_mod::lemma_fundamental_div_mod(t * 500000, s);
    vstd::arithmetic::div_mod::lemma_mod_bound(t * 500000, s);
    vstd::arithmetic::div_mod::lemma_fundamental_div_mod(t * 700000, s);
    vstd::arithmetic::div_mod::lemma_mod_bound(t * 700000, s);
    assert(t - 500000 <= h_x <= 500000);
    assert(t - 300000 <= h_y <= 700000);
    assert(background_spec(r).x == sat((s - t) + h_x));
    assert(background_spec(r).y == sat((s - t) + h_y));
    assert(background_spec(r).z == sat((s - t) + t));
}

/// The background gradient for a ray that escapes the scene.
pub fn background(ray: &Ray) -> (c: Color)
    requires
        v_len(ray@.direction) > 0,
    ensures
        c@ == background_spec(ray@),
        500000 <= c@.x <= SCALE as int,
        700000 <= c@.y <= SCALE as int,
        c@.z == SCALE as int,
{
    proof {
        lemma_background_gamut(ray@);
    }
    let u: Vec3 = ray.direction().unit();
    let cy: i64 = if u.y > SCALE {
        SCALE
    } else if u.y < -SCALE {
        -SCALE
    } else {
        u.y
    };
    let t: i64 = fx_mul(500000, add_sat(cy, SCALE));
    let white: Vec3 = Vec3::new(SCALE, SCALE, SCALE);
    let sky: Vec3 = Vec3::new(500000, 700000, SCALE);
    white.scale(crate::fixed::sub_sat(SCALE, t)).add(&sky.scale(t))
}

/// The radiance estimate of one path under a deterministic draw stream:
/// black once the bounce budget is spent, the background on a miss, and
/// otherwise the scatter attenuation times the recursive estimate.
pub open spec fn spec_color(r: RayV, objs: Seq<Sphere>, depth: int, vals: Seq<u64>, i: nat) -> (
    V3,
    nat,
)
    decreases depth,
{
    if depth <= 0 {
        (black_v3(), i)
    } else {
        match list_hit(objs, r, MIN_INTERSECTION_DISTANCE as int, i64::MAX as int) {
            Some(h) => {
                let (so, i1) = spec_scatter(h.material, r, h, vals, i);
                match so {
                    Some(pair) => {
                        if v_len(pair.1.direction) == 0 {
                            (black_v3(), i1)
                        } else {
                            let (sub, i2) = spec_color(pair.1, objs, depth - 1, vals, i1);
                            (v_mul_comp(pair.0, sub), i2)
                        }
                    },
                    None => (black_v3(), i1),
                }
            },
            None => (background_spec(r), i),
        }
    }
}

/// The background at the gradient's extremes: a ray pointing straight up
/// samples exactly the sky color, one pointing straight down exactly
/// white.
pub proof fn lemma_background_extremes(r: RayV)
    ensures
        r.direction == (V3 { x: 0int, y: SCALE as int, z: 0int }) ==> background_spec(r) == (V3 {
            x: 500000int,
            y: 700000int,
            z: SCALE as int,
        }),
        r.direction == (V3 { x: 0int, y: -(SCALE as int), z: 0int }) ==> background_spec(r) == (V3 {
            x: SCALE as int,
            y: SCALE as int,
            z: SCALE as int,
        }),
{
    let s = SCALE as int;
    lemma_tdiv_cancel(s);
    lemma_tdiv_cancel(-s);
    if r.direction == (V3 { x: 0int, y: s, z: 0int }) || r.direction == (V3 {
        x: 0int,
        y: -s,
        z: 0int,
    }) {
        let d = r.direction;
        assert(v_len_sq(d) == s) by {
            assert(d.y * d.y == s * s) by (nonlinear_arith)
                requires
                    d.y == s || d.y == -s,
            ;
            lemma_tdiv_cancel(s);
        }
        assert(v_len(d) == s) by {
            assert(s * s == 1000000000000int) by (nonlinear_arith)
                requires
                    s == 1000000,
            ;
            assert((s + 1) * (s + 1) == 1000002000001int) by (nonlinear_arith)
                requires
                    s == 1000000,
            ;
            crate::fixed::lemma_isqrt_unique((s * s) as nat, s as nat);
        }
        let u = v_unit(d);
        assert(u.y == fx_div_spec(d.y, s));
        lemma_tdiv_cancel(d.y);
        assert(u.y == d.y);
        assert(u.x == 0 && u.z == 0) by {
            assert(tdiv(0 * s, s) == 0) by {
                lemma_tdiv_cancel(0);
            }
        }
        let t = fx_mul_spec(500000, sat(u.y + s));
        lemma_scale_unit(V3 { x: s, y: s, z: s });
        lemma_scale_unit(V3 { x: 500000int, y: 700000int, z: s });
        if d.y == s {
            assert(t == s) by {
                assert(500000 * (s + s) == s * s) by (nonlinear_arith)
                    requires
                        s == 1000000,
                ;
                lemma_tdiv_cancel(s);
            }
            lemma_scale_unit(V3 { x: 500000int, y: 700000int, z: s });
            assert(v_scale(sat(s - t), V3 { x: s, y: s, z: s }) == (V3 { x: 0int, y: 0int, z: 0int }));
        } else {
            assert(t == 0) by {
                assert(500000 * 0 == 0) by (nonlinear_arith);
            }
            lemma_scale_unit(V3 { x: s, y: s, z: s });
            assert(v_scale(t, V3 { x: 500000int, y: 700000int, z: s }) == (V3 {
                x: 0int,
                y: 0int,
                z: 0int,
            }));
        }
    }
}

/// Scaling by the fixed-point unit is the identity on stored components.
pub proof fn lemma_scale_unit(a: V3)
    requires
        -0x8000000000000000 <= a.x <= 0x7fffffffffffffff,
        -0x8000000000000000 <= a.y <= 0x7fffffffffffffff,
        -0x8000000000000000 <= a.z <= 0x7fffffffffffffff,
    ensures
        v_scale(SCALE as int, a) == a,
        v_scale(0, a) == (V3 { x: 0int, y: 0int, z: 0int }),
{
    lemma_scale_unit_component(a.x);
    lemma_scale_unit_component(a.y);
    lemma_scale_unit_component(a.z);
    assert(tdiv(0, SCALE as int) == 0);
}

proof fn lemma_scale_unit_component(d: int)
    requires
        -0x8000000000000000 <= d <= 0x7fffffffffffffff,
    ensures
        fx_mul_spec(SCALE as int, d) == d,
{
    let s = SCALE as int;
    assert(s_abs(s * d) == s * s_abs(d)) by (nonlinear_arith)
        requires
            s == 1000000,
    ;
    lemma_div_multiples_vanish(s_abs(d), s);
    assert(tdiv(s * d, s) == d);
}

/// Evaluation at the parameter endpoints: `at(0)` is the origin and
/// `at(1)` (one fixed-point unit) is `origin + direction`.
pub proof fn lemma_ray_at_endpoints(r: RayV)
    requires
        -0x8000000000000000 <= r.origin.x <= 0x7fffffffffffffff,
        -0x8000000000000000 <= r.origin.y <= 0x7fffffffffffffff,
        -0x8000000000000000 <= r.origin.z <= 0x7fffffffffffffff,
        -0x8000000000000000 <= r.direction.x <= 0x7fffffffffffffff,
        -0x8000000000000000 <= r.direction.y <= 0x7fffffffffffffff,
        -0x8000000000000000 <= r.direction.z <= 0x7fffffffffffffff,
    ensures
        ray_at_spec(r, 0) == r.origin,
        ray_at_spec(r, SCALE as int) == v_add(r.origin, r.direction),
{
    lemma_scale_unit(r.direction);
    assert(v_add(r.origin, V3 { x: 0int, y: 0int, z: 0int }) == r.origin);
}

} // verus!
