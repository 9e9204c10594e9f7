//! Random sampling utilities.
//!
//! All sampling goes through one `RngSource`.  An external source draws
//! fresh machine entropy through the `rand` crate and promises nothing
//! about the values drawn; a stream source replays a fixed sequence of
//! draws, and every sampler's result is then pinned exactly, which is what
//! makes the integrator reproducible under a deterministic source.

use vstd::prelude::*;

use crate::fixed::SCALE;
use crate::fixed::add_sat;
use crate::fixed::fx_mul;
use crate::fixed::fx_mul_spec;
use crate::fixed::lemma_tdiv_cancel;
use crate::fixed::sat;
use crate::fixed::sub_sat;
use crate::fixed::tdiv;
use crate::vec3::V3;
use crate::vec3::Vec3;
use crate::vec3::v_dot;
use crate::vec3::lemma_neg_in_ball;
use crate::vec3::v_is_zero;
use crate::vec3::v_len;
use crate::vec3::v_len_sq;
use crate::vec3::v_neg;
use crate::vec3::v_unit;
use vstd::arithmetic::div_mod::lemma_div_is_ordered;
use vstd::arithmetic::div_mod::lemma_div_multiples_vanish;

verus! {

/// How many rejection-sampling attempts are made before the fixed
/// fallback point is used; a cap keeps the loops terminating on every
/// draw sequence.
pub const REJECT_CAP: u64 = 64;

/// A uniform random source.  With `external` set, draws come from the
/// process random number generator; otherwise the fixed `values` are
/// replayed in order, cycling.
pub struct RngSource {
    pub external: bool,
    pub values: Vec<u64>,
    pub index: usize,
}

/// Relies on rand::random::<u64>() for one draw of machine entropy;
/// nothing is promised about the value.
#[verifier::external_body]
fn external_random_u64() -> u64 {
    rand::random::<u64>()
}

/// The draw a stream source yields at cursor `i`.
pub open spec fn stream_draw(vals: Seq<u64>, i: nat) -> u64 {
    if vals.len() == 0 {
        0u64
    } else {
        vals[(i % vals.len()) as int]
    }
}

/// The cursor after one draw.
pub open spec fn stream_next(vals: Seq<u64>, i: nat) -> nat {
    if vals.len() == 0 {
        i
    } else {
        (i % vals.len()) + 1
    }
}

/// A raw draw reduced to a fixed-point scalar in `[0, 1)`.
pub open spec fn unit_scalar_of(u: u64) -> int {
    u as int % (SCALE as int)
}

/// One draw remapped linearly onto `[min, max]`.
pub open spec fn spec_random_range(min: int, max: int, vals: Seq<u64>, i: nat) -> (int, nat) {
    let u = unit_scalar_of(stream_draw(vals, i));
    (sat(min + fx_mul_spec(sat(max - min), u)), stream_next(vals, i))
}

/// Three draws remapped onto `[min, max]`, one per component.
pub open spec fn spec_random_vector(min: int, max: int, vals: Seq<u64>, i: nat) -> (V3, nat) {
    let (x, i1) = spec_random_range(min, max, vals, i);
    let (y, i2) = spec_random_range(min, max, vals, i1);
    let (z, i3) = spec_random_range(min, max, vals, i2);
    (V3 { x: x, y: y, z: z }, i3)
}

/// Rejection sampling in the unit disk: pairs are drawn until one falls
/// strictly inside, with the disk center as the capped fallback.
pub open spec fn spec_disk_sample(vals: Seq<u64>, i: nat, tries: nat) -> (V3, nat)
    decreases tries,
{
    if tries == 0 {
        (V3 { x: 0int, y: 0int, z: 0int }, i)
    } else {
        let (x, i1) = spec_random_range(-(SCALE as int), SCALE as int, vals, i);
        let (y, i2) = spec_random_range(-(SCALE as int), SCALE as int, vals, i1);
        let p = V3 { x: x, y: y, z: 0int };
        if v_len_sq(p) < SCALE as int {
            (p, i2)
        } else {
            spec_disk_sample(vals, i2, (tries - 1) as nat)
        }
    }
}

/// Rejection sampling in the unit ball, with the center as fallback.
pub open spec fn spec_sphere_sample(vals: Seq<u64>, i: nat, tries: nat) -> (V3, nat)
    decreases tries,
{
    if tries == 0 {
        (V3 { x: 0int, y: 0int, z: 0int }, i)
    } else {
        let (p, i1) = spec_random_vector(-(SCALE as int), SCALE as int, vals, i);
        if v_len_sq(p) < SCALE as int {
            (p, i1)
        } else {
            spec_sphere_sample(vals, i1, (tries - 1) as nat)
        }
    }
}

/// How far the squared magnitude of a normalized sample may drift from
/// one before the sample is judged too coarse and the axis fallback is
/// used instead.
pub const UNIT_LEN_SQ_TOL: i64 = 2000;

/// A ball sample normalized onto the sphere surface.  A sample too short
/// to normalize, or so coarse that its normalization drifts past the
/// magnitude tolerance, falls back to the `x` axis direction.
pub open spec fn spec_unit_vector(vals: Seq<u64>, i: nat) -> (V3, nat) {
    let (p, i1) = spec_sphere_sample(vals, i, REJECT_CAP as nat);
    let axis = V3 { x: SCALE as int, y: 0int, z: 0int };
    if v_len(p) == 0 {
        (axis, i1)
    } else {
        let u = v_unit(p);
        if v_len_sq(u) < SCALE as int - UNIT_LEN_SQ_TOL as int || v_len_sq(u) > SCALE as int
            + UNIT_LEN_SQ_TOL as int {
            (axis, i1)
        } else {
            (u, i1)
        }
    }
}

/// A ball sample flipped into the hemisphere around `normal`.
pub open spec fn spec_hemisphere_sample(normal: V3, vals: Seq<u64>, i: nat) -> (V3, nat) {
    let (p, i1) = spec_sphere_sample(vals, i, REJECT_CAP as nat);
    if v_dot(p, normal) > 0 {
        (p, i1)
    } else {
        (v_neg(p), i1)
    }
}

impl RngSource {
    /// A source of fresh machine entropy.
    pub fn from_entropy() -> (r: Self)
        ensures
            r.external,
    {
        RngSource { external: true, values: Vec::new(), index: 0 }
    }

    /// A deterministic source replaying `values` in order, cycling.
    pub fn from_stream(values: Vec<u64>) -> (r: Self)
        ensures
            !r.external,
            r.values == values,
            r.index == 0,
    {
        RngSource { external: false, values, index: 0 }
    }

    /// One raw draw.
    pub fn draw_u64(&mut self) -> (r: u64)
        ensures
            final(self).external == old(self).external,
            final(self).values == old(self).values,
            old(self).external ==> final(self).index == old(self).index,
            !old(self).external ==> r == stream_draw(old(self).values@, old(self).index as nat)
                && final(self).index as nat == stream_next(old(self).values@, old(self).index as nat),
    {
        if self.external {
            external_random_u64()
        } else {
            if self.values.len() == 0 {
                0
            } else {
                let k: usize = self.index % self.values.len();
                let r: u64 = self.values[k];
                self.index = k + 1;
                r
            }
        }
    }

    /// One draw reduced to a scalar in `[0, 1)`.
    pub fn random_unit_scalar(&mut self) -> (r: i64)
        ensures
            0 <= r < SCALE,
            final(self).external == old(self).external,
            final(self).values == old(self).values,
            old(self).external ==> final(self).index == old(self).index,
            !old(self).external ==> r as int == unit_scalar_of(
                stream_draw(old(self).values@, old(self).index as nat),
            ) && final(self).index as nat == stream_next(old(self).values@, old(self).index as nat),
    {
        let u: u64 = self.draw_u64();
        let m: u64 = u % 1000000u64;
        m as i64
    }
}

/// A scalar in `[0, 1)` scales a nonnegative span down without leaving it.
proof fn lemma_fx_mul_unit_range(d: int, u: int)
    requires
        0 <= d <= i64::MAX,
        0 <= u < SCALE as int,
    ensures
        0 <= fx_mul_spec(d, u) <= d,
{
    let s = SCALE as int;
    assert(0 <= d * u <= d * s) by (nonlinear_arith)
        requires
            0 <= d,
            0 <= u <= s,
    ;
    lemma_div_is_ordered(d * u, d * s, s);
    lemma_div_multiples_vanish(d, s);
    assert(s * d == d * s) by (nonlinear_arith);
    assert(tdiv(d * u, s) == d * u / s);
    assert(d * u / s <= d);
    assert(d * u / s >= 0);
}

/// Linear remap of one uniform draw onto `[min, max]`.
pub fn random_range(min: i64, max: i64, rng: &mut RngSource) -> (r: i64)
    ensures
        min <= max ==> min <= r <= max,
        final(rng).external == old(rng).external,
        final(rng).values == old(rng).values,
        old(rng).external ==> final(rng).index == old(rng).index,
        !old(rng).external ==> ({
            let (v, j) = spec_random_range(
                min as int,
                max as int,
                old(rng).values@,
                old(rng).index as nat,
            );
            r as int == v && final(rng).index as nat == j
        }),
{
    let u: i64 = rng.random_unit_scalar();
    let d: i64 = sub_sat(max, min);
    proof {
        if min <= max {
            lemma_fx_mul_unit_range(d as int, u as int);
        }
    }
    add_sat(min, fx_mul(d, u))
}

/// A point with every coordinate uniform in `[min, max]`.
pub fn random_point(min: i64, max: i64, rng: &mut RngSource) -> (r: Vec3)
    ensures
        min <= max ==> min <= r.x <= max && min <= r.y <= max && min <= r.z <= max,
        final(rng).external == old(rng).external,
        final(rng).values == old(rng).values,
        old(rng).external ==> final(rng).index == old(rng).index,
        !old(rng).external ==> ({
            let (v, j) = spec_random_vector(
                min as int,
                max as int,
                old(rng).values@,
                old(rng).index as nat,
            );
            r@ == v && final(rng).index as nat == j
        }),
{
    random_vector_range(min, max, rng)
}

/// A color with every channel uniform in `[min, max]`.
pub fn random_color(min: i64, max: i64, rng: &mut RngSource) -> (r: Vec3)
    ensures
        min <= max ==> min <= r.x <= max && min <= r.y <= max && min <= r.z <= max,
        final(rng).external == old(rng).external,
        final(rng).values == old(rng).values,
        old(rng).external ==> final(rng).index == old(rng).index,
        !old(rng).external ==> ({
            let (v, j) = spec_random_vector(
                min as int,
                max as int,
                old(rng).values@,
                old(rng).index as nat,
            );
            r@ == v && final(rng).index as nat == j
        }),
{
    random_vector_range(min, max, rng)
}

/// A vector with every component uniform in `[min, max]`.
pub fn random_vector_range(min: i64, max: i64, rng: &mut RngSource) -> (r: Vec3)
    ensures
        min <= max ==> min <= r.x <= max && min <= r.y <= max && min <= r.z <= max,
        final(rng).external == old(rng).external,
        final(rng).values == old(rng).values,
        old(rng).external ==> final(rng).index == old(rng).index,
        !old(rng).external ==> ({
            let (v, j) = spec_random_vector(
                min as int,
                max as int,
                old(rng).values@,
                old(rng).index as nat,
            );
            r@ == v && final(rng).index as nat == j
        }),
{
    let x: i64 = random_range(min, max, rng);
    let y: i64 = random_range(min, max, rng);
    let z: i64 = random_range(min, max, rng);
    Vec3::new(x, y, z)
}

/// Rejection sample strictly inside the unit disk in the `z = 0` plane.
pub fn random_in_unit_disk(rng: &mut RngSource) -> (r: Vec3)
    ensures
        v_len_sq(r@) < SCALE as int,
        r.z == 0,
        final(rng).external == old(rng).external,
        final(rng).values == old(rng).values,
        old(rng).external ==> final(rng).index == old(rng).index,
        !old(rng).external ==> ({
            let (v, j) = spec_disk_sample(old(rng).values@, old(rng).index as nat, REJECT_CAP as nat);
            r@ == v && final(rng).index as nat == j
        }),
{
    let ghost vals = rng.values@;
    let ghost i0 = rng.index as nat;
    let mut tries: u64 = REJECT_CAP;
    while tries > 0
        invariant
            tries <= REJECT_CAP,
            rng.external == old(rng).external,
            rng.values == old(rng).values,
            vals == rng.values@,
            i0 == old(rng).index as nat,
            old(rng).external ==> rng.index == old(rng).index,
            !old(rng).external ==> spec_disk_sample(vals, i0, REJECT_CAP as nat)
                == spec_disk_sample(vals, rng.index as nat, tries as nat),
        decreases tries,
    {
        let ghost ie = rng.index as nat;
        let x: i64 = random_range(-SCALE, SCALE, rng);
        let y: i64 = random_range(-SCALE, SCALE, rng);
        let p: Vec3 = Vec3::new(x, y, 0);
        proof {
            if !old(rng).external {
                assert(spec_disk_sample(vals, ie, tries as nat) == if v_len_sq(p@) < SCALE as int {
                    (p@, rng.index as nat)
                } else {
                    spec_disk_sample(vals, rng.index as nat, (tries - 1) as nat)
                });
            }
        }
        if p.length_squared() < SCALE {
            return p;
        }
        tries = tries - 1;
    }
    Vec3::zero()
}

/// Rejection sample strictly inside the unit ball.
pub fn random_in_unit_sphere(rng: &mut RngSource) -> (r: Vec3)
    ensures
        v_len_sq(r@) < SCALE as int,
        final(rng).external == old(rng).external,
        final(rng).values == old(rng).values,
        old(rng).external ==> final(rng).index == old(rng).index,
        !old(rng).external ==> ({
            let (v, j) = spec_sphere_sample(
                old(rng).values@,
                old(rng).index as nat,
                REJECT_CAP as nat,
            );
            r@ == v && final(rng).index as nat == j
        }),
{
    let ghost vals = rng.values@;
    let ghost i0 = rng.index as nat;
    let mut tries: u64 = REJECT_CAP;
    while tries > 0
        invariant
            tries <= REJECT_CAP,
            rng.external == old(rng).external,
            rng.values == old(rng).values,
            vals == rng.values@,
            i0 == old(rng).index as nat,
            old(rng).external ==> rng.index == old(rng).index,
            !old(rng).external ==> spec_sphere_sample(vals, i0, REJECT_CAP as nat)
                == spec_sphere_sample(vals, rng.index as nat, tries as nat),
        decreases tries,
    {
        let ghost ie = rng.index as nat;
        let p: Vec3 = random_vector_range(-SCALE, SCALE, rng);
        proof {
            if !old(rng).external {
                assert(spec_sphere_sample(vals, ie, tries as nat) == if v_len_sq(p@) < SCALE as int {
                    (p@, rng.index as nat)
                } else {
                    spec_sphere_sample(vals, rng.index as nat, (tries - 1) as nat)
                });
            }
        }
        if p.length_squared() < SCALE {
            return p;
        }
        tries = tries - 1;
    }
    Vec3::zero()
}

/// A uniformly distributed direction: a ball sample normalized, with an
/// axis fallback for samples too short to normalize.
pub fn random_unit_vector(rng: &mut RngSource) -> (r: Vec3)
    ensures
        final(rng).external == old(rng).external,
        final(rng).values == old(rng).values,
        old(rng).external ==> final(rng).index == old(rng).index,
        !old(rng).external ==> ({
            let (v, j) = spec_unit_vector(old(rng).values@, old(rng).index as nat);
            r@ == v && final(rng).index as nat == j
        }),
        SCALE as int - UNIT_LEN_SQ_TOL as int <= v_len_sq(r@) <= SCALE as int
            + UNIT_LEN_SQ_TOL as int,
        r@ == (V3 { x: SCALE as int, y: 0int, z: 0int }) || (exists|p: V3|
            #[trigger] v_unit(p) == r@ && v_len_sq(p) < SCALE as int && v_len(p) > 0),
{
    proof {
        lemma_tdiv_cancel(SCALE as int);
    }
    let axis: Vec3 = Vec3::new(SCALE, 0, 0);
    let p: Vec3 = random_in_unit_sphere(rng);
    let len: i64 = p.length();
    if len == 0 {
        return axis;
    }
    let u: Vec3 = p.unit();
    let ls: i64 = u.length_squared();
    if ls < SCALE - UNIT_LEN_SQ_TOL || ls > SCALE + UNIT_LEN_SQ_TOL {
        axis
    } else {
        proof {
            assert(v_unit(p@) == u@ && v_len_sq(p@) < SCALE as int && v_len(p@) > 0);
        }
        u
    }
}

/// A ball sample kept on the side of `normal`, flipping it if needed.
pub fn random_in_hemisphere(normal: &Vec3, rng: &mut RngSource) -> (r: Vec3)
    ensures
        final(rng).external == old(rng).external,
        final(rng).values == old(rng).values,
        old(rng).external ==> final(rng).index == old(rng).index,
        !old(rng).external ==> ({
            let (v, j) = spec_hemisphere_sample(normal@, old(rng).values@, old(rng).index as nat);
            r@ == v && final(rng).index as nat == j
        }),
        v_dot(r@, normal@) >= 0,
        v_len_sq(r@) < SCALE as int,
{
    let p: Vec3 = random_in_unit_sphere(rng);
    if p.dot(normal) > 0 {
        p
    } else {
        proof {
            lemma_neg_in_ball(p@, normal@);
        }
        p.neg()
    }
}

/// Whether every component of `vector` lies below the degeneracy
/// threshold; the threshold of `1e-8` units is finer than the scalar
/// resolution, so only exact zeros qualify.
pub fn near_zero(vector: &Vec3) -> (r: bool)
    ensures
        r == v_is_zero(vector@),
{
    vector.x == 0 && vector.y == 0 && vector.z == 0
}

} // verus!
