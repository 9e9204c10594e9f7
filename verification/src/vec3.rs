//! Three-component fixed-point vectors, used both as free vectors, as
//! positions and as colors.
//!
//! The mathematical model of a vector is `V3`: three unbounded integers,
//! each standing for a component scaled by `fixed::SCALE`.  Every operation
//! is specified exactly over that model.

use vstd::prelude::*;

use crate::fixed::SCALE;
use crate::fixed::add_sat;
use crate::fixed::dot3_i64;
use crate::fixed::dot3_spec;
use crate::fixed::fx_div;
use crate::fixed::fx_div_spec;
use crate::fixed::fx_mul;
use crate::fixed::fx_mul_spec;
use crate::fixed::fx_sqrt;
use crate::fixed::fx_sqrt_spec;
use crate::fixed::neg_sat;
use crate::fixed::sat;
use crate::fixed::sub_sat;
use crate::fixed::tdiv;

verus! {

/// Model of a vector: unbounded integer components.
pub ghost struct V3 {
    pub x: int,
    pub y: int,
    pub z: int,
}

/// A fixed-point vector; also serves as a point and as a color.
#[derive(Clone, Copy, PartialEq, Eq, Structural, Debug)]
pub struct Vec3 {
    pub x: i64,
    pub y: i64,
    pub z: i64,
}

/// `Point` and `Color` are the same data read in other roles.
pub type Point = Vec3;

pub type Color = Vec3;

impl View for Vec3 {
    type V = V3;

    open spec fn view(&self) -> V3 {
        V3 { x: self.x as int, y: self.y as int, z: self.z as int }
    }
}

pub open spec fn v_add(a: V3, b: V3) -> V3 {
    V3 { x: sat(a.x + b.x), y: sat(a.y + b.y), z: sat(a.z + b.z) }
}

pub open spec fn v_sub(a: V3, b: V3) -> V3 {
    V3 { x: sat(a.x - b.x), y: sat(a.y - b.y), z: sat(a.z - b.z) }
}

pub open spec fn v_neg(a: V3) -> V3 {
    V3 { x: sat(-a.x), y: sat(-a.y), z: sat(-a.z) }
}

/// The vector scaled by the scalar `t`.
pub open spec fn v_scale(t: int, a: V3) -> V3 {
    V3 { x: fx_mul_spec(t, a.x), y: fx_mul_spec(t, a.y), z: fx_mul_spec(t, a.z) }
}

/// Component-wise product, the attenuation of one color by another.
pub open spec fn v_mul_comp(a: V3, b: V3) -> V3 {
    V3 { x: fx_mul_spec(a.x, b.x), y: fx_mul_spec(a.y, b.y), z: fx_mul_spec(a.z, b.z) }
}

/// Euclidean inner product: the three exact products summed, then rescaled.
pub open spec fn v_dot(a: V3, b: V3) -> int {
    dot3_spec(a.x, a.y, a.z, b.x, b.y, b.z)
}

pub open spec fn v_cross(a: V3, b: V3) -> V3 {
    V3 {
        x: sat(fx_mul_spec(a.y, b.z) - fx_mul_spec(a.z, b.y)),
        y: sat(fx_mul_spec(a.z, b.x) - fx_mul_spec(a.x, b.z)),
        z: sat(fx_mul_spec(a.x, b.y) - fx_mul_spec(a.y, b.x)),
    }
}

pub open spec fn v_len_sq(a: V3) -> int {
    v_dot(a, a)
}

pub open spec fn v_len(a: V3) -> int {
    fx_sqrt_spec(v_len_sq(a))
}

/// Normalization; meaningful when `v_len(a) > 0`.
pub open spec fn v_unit(a: V3) -> V3 {
    V3 {
        x: fx_div_spec(a.x, v_len(a)),
        y: fx_div_spec(a.y, v_len(a)),
        z: fx_div_spec(a.z, v_len(a)),
    }
}

/// Every component divided by the scalar `d`; meaningful for `d != 0`.
pub open spec fn v_div_scalar(a: V3, d: int) -> V3 {
    V3 { x: fx_div_spec(a.x, d), y: fx_div_spec(a.y, d), z: fx_div_spec(a.z, d) }
}

pub open spec fn v_is_zero(a: V3) -> bool {
    a.x == 0 && a.y == 0 && a.z == 0
}

/// A squared magnitude is never negative.
pub proof fn lemma_len_sq_nonneg(a: V3)
    ensures
        v_len_sq(a) >= 0,
{
    assert(a.x * a.x >= 0) by (nonlinear_arith);
    assert(a.y * a.y >= 0) by (nonlinear_arith);
    assert(a.z * a.z >= 0) by (nonlinear_arith);
    assert(tdiv(a.x * a.x + a.y * a.y + a.z * a.z, SCALE as int) >= 0);
}

/// Inside the unit ball no component is the extreme scalar, so negation
/// is exact: membership is preserved and a non-positive dot product
/// flips to a non-negative one.
pub proof fn lemma_neg_in_ball(p: V3, n: V3)
    requires
        -0x8000000000000000 <= p.x <= 0x7fffffffffffffff,
        -0x8000000000000000 <= p.y <= 0x7fffffffffffffff,
        -0x8000000000000000 <= p.z <= 0x7fffffffffffffff,
        v_len_sq(p) < SCALE as int,
    ensures
        v_len_sq(v_neg(p)) == v_len_sq(p),
        v_dot(p, n) <= 0 ==> v_dot(v_neg(p), n) >= 0,
{
    lemma_ball_excludes_extreme(p.x, p.y, p.z);
    lemma_ball_excludes_extreme(p.y, p.x, p.z);
    lemma_ball_excludes_extreme(p.z, p.x, p.y);
    assert(v_len_sq(V3 { x: p.y, y: p.x, z: p.z }) == v_len_sq(p));
    assert(v_len_sq(V3 { x: p.z, y: p.x, z: p.y }) == v_len_sq(p));
    let q = v_neg(p);
    assert(q == (V3 { x: -p.x, y: -p.y, z: -p.z }));
    assert((-p.x) * (-p.x) == p.x * p.x) by (nonlinear_arith);
    assert((-p.y) * (-p.y) == p.y * p.y) by (nonlinear_arith);
    assert((-p.z) * (-p.z) == p.z * p.z) by (nonlinear_arith);
    assert((-p.x) * n.x == -(p.x * n.x)) by (nonlinear_arith);
    assert((-p.y) * n.y == -(p.y * n.y)) by (nonlinear_arith);
    assert((-p.z) * n.z == -(p.z * n.z)) by (nonlinear_arith);
    let total = p.x * n.x + p.y * n.y + p.z * n.z;
    crate::fixed::lemma_tdiv_neg(total, SCALE as int);
    assert(v_dot(q, n) == sat(-tdiv(total, SCALE as int)));
}

/// A first component at the extreme scalar alone pushes the squared
/// magnitude past the ball.
proof fn lemma_ball_excludes_extreme(a: int, b: int, c: int)
    requires
        v_len_sq(V3 { x: a, y: b, z: c }) < SCALE as int,
    ensures
        a != -0x8000000000000000,
{
    if a == -0x8000000000000000 {
        assert(a * a == 0x40000000000000000000000000000000int) by (nonlinear_arith)
            requires
                a == -0x8000000000000000,
        ;
        assert(b * b >= 0) by (nonlinear_arith);
        assert(c * c >= 0) by (nonlinear_arith);
        crate::fixed::lemma_tdiv_monotone(
            0x40000000000000000000000000000000int,
            a * a + b * b + c * c,
            SCALE as int,
        );
        assert(tdiv(0x40000000000000000000000000000000int, SCALE as int)
            == 0x40000000000000000000000000000000int / 1000000int);
    }
}

impl Vec3 {
    pub fn new(x: i64, y: i64, z: i64) -> (r: Vec3)
        ensures
            r@ == (V3 { x: x as int, y: y as int, z: z as int }),
    {
        Vec3 { x, y, z }
    }

    pub fn zero() -> (r: Vec3)
        ensures
            r@ == (V3 { x: 0int, y: 0int, z: 0int }),
            v_is_zero(r@),
    {
        Vec3 { x: 0, y: 0, z: 0 }
    }

    pub fn add(&self, o: &Vec3) -> (r: Vec3)
        ensures
            r@ == v_add(self@, o@),
    {
        Vec3 { x: add_sat(self.x, o.x), y: add_sat(self.y, o.y), z: add_sat(self.z, o.z) }
    }

    pub fn sub(&self, o: &Vec3) -> (r: Vec3)
        ensures
            r@ == v_sub(self@, o@),
    {
        Vec3 { x: sub_sat(self.x, o.x), y: sub_sat(self.y, o.y), z: sub_sat(self.z, o.z) }
    }

    pub fn neg(&self) -> (r: Vec3)
        ensures
            r@ == v_neg(self@),
    {
        Vec3 { x: neg_sat(self.x), y: neg_sat(self.y), z: neg_sat(self.z) }
    }

    pub fn scale(&self, t: i64) -> (r: Vec3)
        ensures
            r@ == v_scale(t as int, self@),
    {
        Vec3 { x: fx_mul(t, self.x), y: fx_mul(t, self.y), z: fx_mul(t, self.z) }
    }

    pub fn mul_comp(&self, o: &Vec3) -> (r: Vec3)
        ensures
            r@ == v_mul_comp(self@, o@),
    {
        Vec3 { x: fx_mul(self.x, o.x), y: fx_mul(self.y, o.y), z: fx_mul(self.z, o.z) }
    }

    pub fn dot(&self, o: &Vec3) -> (r: i64)
        ensures
            r as int == v_dot(self@, o@),
    {
        dot3_i64(self.x, self.y, self.z, o.x, o.y, o.z)
    }

    pub fn cross(&self, o: &Vec3) -> (r: Vec3)
        ensures
            r@ == v_cross(self@, o@),
    {
        Vec3 {
            x: sub_sat(fx_mul(self.y, o.z), fx_mul(self.z, o.y)),
            y: sub_sat(fx_mul(self.z, o.x), fx_mul(self.x, o.z)),
            z: sub_sat(fx_mul(self.x, o.y), fx_mul(self.y, o.x)),
        }
    }

    pub fn length_squared(&self) -> (r: i64)
        ensures
            r as int == v_len_sq(self@),
            r >= 0,
    {
        proof {
            lemma_len_sq_nonneg(self@);
        }
        dot3_i64(self.x, self.y, self.z, self.x, self.y, self.z)
    }

    pub fn length(&self) -> (r: i64)
        ensures
            r as int == v_len(self@),
            r >= 0,
    {
        let sq: i64 = self.length_squared();
        fx_sqrt(sq)
    }

    pub fn div_scalar(&self, d: i64) -> (r: Vec3)
        requires
            d != 0,
        ensures
            r@ == v_div_scalar(self@, d as int),
    {
        Vec3 { x: fx_div(self.x, d), y: fx_div(self.y, d), z: fx_div(self.z, d) }
    }

    /// Unit-normalize; the caller keeps degenerate magnitudes away.
    pub fn unit(&self) -> (r: Vec3)
        requires
            v_len(self@) > 0,
        ensures
            r@ == v_unit(self@),
    {
        let len: i64 = self.length();
        Vec3 { x: fx_div(self.x, len), y: fx_div(self.y, len), z: fx_div(self.z, len) }
    }

}

} // verus!
