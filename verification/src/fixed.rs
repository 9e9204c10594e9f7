//! Fixed-point scalar arithmetic.
//!
//! A scalar `a: i64` stands for the real value `a / SCALE`.  Multiplication
//! and division rescale their exact integer result with division truncating
//! toward zero, and every operation saturates at the `i64` range, so all
//! operations are total and their results are stated exactly.

use vstd::prelude::*;

use vstd::arithmetic::div_mod::lemma_div_multiples_vanish;

verus! {

/// Fixed-point steps per unit: the scalar `a` stands for the value `a / SCALE`.
pub const SCALE: i64 = 1_000_000;

pub open spec fn s_abs(a: int) -> int {
    if a >= 0 {
        a
    } else {
        -a
    }
}

/// Clamp an unbounded integer into the `i64` range.
pub open spec fn sat(x: int) -> int {
    if x > i64::MAX {
        i64::MAX as int
    } else if x < i64::MIN {
        i64::MIN as int
    } else {
        x
    }
}

/// Division truncating toward zero (the machine convention); meaningful for `b != 0`.
pub open spec fn tdiv(a: int, b: int) -> int {
    if (a < 0) == (b < 0) {
        s_abs(a) / s_abs(b)
    } else {
        -(s_abs(a) / s_abs(b))
    }
}

/// `a * b / c`, truncating toward zero, clamped into the `i64` range.
pub open spec fn muldiv(a: int, b: int, c: int) -> int {
    sat(tdiv(a * b, c))
}

/// Product of two scalars, rescaled.
pub open spec fn fx_mul_spec(a: int, b: int) -> int {
    muldiv(a, b, SCALE as int)
}

/// Quotient of two scalars, rescaled.
pub open spec fn fx_div_spec(a: int, b: int) -> int {
    muldiv(a, SCALE as int, b)
}

/// Magnitude of an `i64`, widened so that `i64::MIN` is representable.
fn abs_u64(a: i64) -> (r: u64)
    ensures
        r == s_abs(a as int),
{
    if a >= 0 {
        a as u64
    } else {
        (-(a as i128)) as u64
    }
}

proof fn lemma_abs_mul(a: int, b: int)
    ensures
        s_abs(a * b) == s_abs(a) * s_abs(b),
{
    assert(s_abs(a * b) == s_abs(a) * s_abs(b)) by (nonlinear_arith);
}

/// Exact `sat(tdiv(a * b, c))` via 128-bit intermediates.
pub fn muldiv_i64(a: i64, b: i64, c: i64) -> (r: i64)
    requires
        c != 0,
    ensures
        r as int == muldiv(a as int, b as int, c as int),
{
    let neg: bool = ((a < 0) != (b < 0)) != (c < 0);
    let ma: u128 = abs_u64(a) as u128;
    let mb: u128 = abs_u64(b) as u128;
    let mc: u128 = abs_u64(c) as u128;
    proof {
        lemma_abs_mul(a as int, b as int);
        assert(ma * mb <= 170141183460469231731687303715884105728int) by (nonlinear_arith)
            requires
                ma <= 9223372036854775808u128,
                mb <= 9223372036854775808u128,
        ;
    }
    let p: u128 = ma * mb;
    let q: u128 = p / mc;
    proof {
        // q is the magnitude of the truncating quotient.
        assert(p == s_abs(a as int * b as int));
        assert(q == s_abs(a as int * b as int) / s_abs(c as int));
        if a as int * b as int == 0 {
            assert(q == 0);
        } else {
            // the sign of a*b is determined by the signs of a and b
            assert(((a as int * b as int) < 0) <==> ((a < 0) != (b < 0))) by (nonlinear_arith)
                requires
                    a as int * b as int != 0,
            ;
        }
    }
    if neg {
        if q >= 9223372036854775808u128 {
            i64::MIN
        } else {
            -(q as i64)
        }
    } else {
        if q > 9223372036854775807u128 {
            i64::MAX
        } else {
            q as i64
        }
    }
}

/// Fixed-point product.
pub fn fx_mul(a: i64, b: i64) -> (r: i64)
    ensures
        r as int == fx_mul_spec(a as int, b as int),
{
    muldiv_i64(a, b, SCALE)
}

/// Fixed-point quotient.
pub fn fx_div(a: i64, b: i64) -> (r: i64)
    requires
        b != 0,
    ensures
        r as int == fx_div_spec(a as int, b as int),
{
    muldiv_i64(a, SCALE, b)
}

/// Plain integer quotient, truncating toward zero, clamped.
pub fn div_trunc(a: i64, b: i64) -> (r: i64)
    requires
        b != 0,
    ensures
        r as int == sat(tdiv(a as int, b as int)),
{
    muldiv_i64(a, 1, b)
}

/// Saturating sum of two scalars.
pub fn add_sat(a: i64, b: i64) -> (r: i64)
    ensures
        r as int == sat(a + b),
{
    let s: i128 = a as i128 + b as i128;
    if s > i64::MAX as i128 {
        i64::MAX
    } else if s < i64::MIN as i128 {
        i64::MIN
    } else {
        s as i64
    }
}

/// Saturating difference of two scalars.
pub fn sub_sat(a: i64, b: i64) -> (r: i64)
    ensures
        r as int == sat(a - b),
{
    let s: i128 = a as i128 - b as i128;
    if s > i64::MAX as i128 {
        i64::MAX
    } else if s < i64::MIN as i128 {
        i64::MIN
    } else {
        s as i64
    }
}

/// Saturating magnitude of a scalar.
pub fn abs_sat(a: i64) -> (r: i64)
    ensures
        r as int == sat(s_abs(a as int)),
        r >= 0,
{
    if a == i64::MIN {
        i64::MAX
    } else if a < 0 {
        -a
    } else {
        a
    }
}

/// Saturating negation of a scalar.
pub fn neg_sat(a: i64) -> (r: i64)
    ensures
        r as int == sat(-(a as int)),
{
    if a == i64::MIN {
        i64::MAX
    } else {
        -a
    }
}

/// Rescaling by `SCALE` and dividing it out again is the identity.
pub proof fn lemma_tdiv_cancel(x: int)
    ensures
        tdiv(x * (SCALE as int), SCALE as int) == x,
{
    let s = SCALE as int;
    assert(s_abs(x * s) == s_abs(x) * s) by (nonlinear_arith)
        requires
            s == 1000000,
    ;
    assert(s_abs(x) * s == s * s_abs(x)) by (nonlinear_arith);
    lemma_div_multiples_vanish(s_abs(x), s);
}

/// Truncating division commutes with negating the dividend.
pub proof fn lemma_tdiv_neg(a: int, b: int)
    requires
        b != 0,
    ensures
        tdiv(-a, b) == -tdiv(a, b),
{
    vstd::arithmetic::div_mod::lemma_div_basics_1(s_abs(b));
    assert(s_abs(-a) == s_abs(a));
}

/// Truncating division is monotone in the dividend for a positive divisor.
pub proof fn lemma_tdiv_monotone(a1: int, a2: int, b: int)
    requires
        a1 <= a2,
        b > 0,
    ensures
        tdiv(a1, b) <= tdiv(a2, b),
{
    if a1 >= 0 {
        vstd::arithmetic::div_mod::lemma_div_is_ordered(a1, a2, b);
    } else if a2 < 0 {
        vstd::arithmetic::div_mod::lemma_div_is_ordered(-a2, -a1, b);
    } else {
        vstd::arithmetic::div_mod::lemma_div_pos_is_pos(-a1, b);
        vstd::arithmetic::div_mod::lemma_div_pos_is_pos(a2, b);
    }
}

/// Fixed-point division is monotone in the numerator for a positive divisor.
pub proof fn lemma_fx_div_monotone(a1: int, a2: int, b: int)
    requires
        a1 <= a2,
        b > 0,
    ensures
        fx_div_spec(a1, b) <= fx_div_spec(a2, b),
{
    assert(a1 * (SCALE as int) <= a2 * (SCALE as int)) by (nonlinear_arith)
        requires
            a1 <= a2,
    ;
    lemma_tdiv_monotone(a1 * (SCALE as int), a2 * (SCALE as int), b);
}

/// The scalar standing for `a . b` of three-component vectors: the exact
/// integer sum of the three products, rescaled and clamped.
pub open spec fn dot3_spec(ax: int, ay: int, az: int, bx: int, by: int, bz: int) -> int {
    sat(tdiv(ax * bx + ay * by + az * bz, SCALE as int))
}

/// One signed 128-bit product split into its contribution to a positive
/// and a negative unsigned accumulator.
fn accum_product(a: i64, b: i64, pos: &mut u128, neg: &mut u128) -> (g: Ghost<int>)
    requires
        *old(pos) <= 0x80000000000000000000000000000000u128,
        *old(neg) <= 0x80000000000000000000000000000000u128,
    ensures
        g@ == a as int * b as int,
        *final(pos) + *old(neg) == *old(pos) + *final(neg) + a as int * b as int,
        *final(pos) <= *old(pos) + s_abs(a as int * b as int),
        *final(neg) <= *old(neg) + s_abs(a as int * b as int),
        s_abs(a as int * b as int) <= 0x40000000000000000000000000000000int,
{
    proof {
        lemma_abs_mul(a as int, b as int);
        assert(s_abs(a as int) * s_abs(b as int) <= 0x40000000000000000000000000000000int)
            by (nonlinear_arith)
            requires
                s_abs(a as int) <= 0x8000000000000000int,
                s_abs(b as int) <= 0x8000000000000000int,
        ;
    }
    let p: i128 = (a as i128) * (b as i128);
    if p >= 0 {
        *pos = *pos + (p as u128);
    } else {
        *neg = *neg + ((-p) as u128);
    }
    Ghost(a as int * b as int)
}

/// Exact `dot3_spec` via split unsigned accumulators.
pub fn dot3_i64(ax: i64, ay: i64, az: i64, bx: i64, by: i64, bz: i64) -> (r: i64)
    ensures
        r as int == dot3_spec(ax as int, ay as int, az as int, bx as int, by as int, bz as int),
{
    let mut pos: u128 = 0;
    let mut neg: u128 = 0;
    let g1: Ghost<int> = accum_product(ax, bx, &mut pos, &mut neg);
    let g2: Ghost<int> = accum_product(ay, by, &mut pos, &mut neg);
    let g3: Ghost<int> = accum_product(az, bz, &mut pos, &mut neg);
    let ghost total: int = g1@ + g2@ + g3@;
    let (m, neg_sign): (u128, bool) = if pos >= neg {
        (pos - neg, false)
    } else {
        (neg - pos, true)
    };
    proof {
        if neg_sign {
            assert(m == s_abs(total));
        } else {
            assert(m == s_abs(total));
        }
    }
    let q: u128 = m / (SCALE as u128);
    proof {
        assert(q == s_abs(total) / (SCALE as int));
    }
    if neg_sign {
        if q >= 9223372036854775808u128 {
            i64::MIN
        } else {
            -(q as i64)
        }
    } else {
        if q > 9223372036854775807u128 {
            i64::MAX
        } else {
            q as i64
        }
    }
}

/// Integer square root, as a recurrence: the largest `r` with `r * r <= n`.
pub open spec fn isqrt(n: nat) -> nat
    decreases n,
{
    if n == 0 {
        0
    } else {
        let p = isqrt((n - 1) as nat);
        if (p + 1) * (p + 1) <= n {
            (p + 1) as nat
        } else {
            p
        }
    }
}

pub proof fn lemma_isqrt_bounds(n: nat)
    ensures
        isqrt(n) * isqrt(n) <= n,
        n < (isqrt(n) + 1) * (isqrt(n) + 1),
    decreases n,
{
    if n == 0 {
        assert(isqrt(n) == 0);
        assert(n < (isqrt(n) + 1) * (isqrt(n) + 1)) by (nonlinear_arith)
            requires
                n == 0,
                isqrt(n) == 0,
        ;
    } else {
        lemma_isqrt_bounds((n - 1) as nat);
        let p = isqrt((n - 1) as nat);
        assert(p * p <= n - 1);
        assert(n - 1 < (p + 1) * (p + 1));
        if (p + 1) * (p + 1) <= n {
            assert(isqrt(n) == p + 1);
            // n - 1 < (p + 1) * (p + 1) <= n forces equality, so n < (p + 2)^2
            assert(n == (p + 1) * (p + 1));
            assert((p + 1) * (p + 1) < (p + 2) * (p + 2)) by (nonlinear_arith);
            assert(isqrt(n) * isqrt(n) <= n);
            assert(n < (isqrt(n) + 1) * (isqrt(n) + 1));
        } else {
            assert(isqrt(n) == p);
            assert(isqrt(n) * isqrt(n) <= n);
            assert(n < (isqrt(n) + 1) * (isqrt(n) + 1));
        }
    }
}

pub proof fn lemma_isqrt_unique(n: nat, r: nat)
    requires
        r * r <= n,
        n < (r + 1) * (r + 1),
    ensures
        r == isqrt(n),
{
    lemma_isqrt_bounds(n);
    let s = isqrt(n);
    if r < s {
        assert((r + 1) * (r + 1) <= s * s) by (nonlinear_arith)
            requires
                r + 1 <= s,
        ;
    } else if s < r {
        assert((s + 1) * (s + 1) <= r * r) by (nonlinear_arith)
            requires
                s + 1 <= r,
        ;
    }
}

/// Binary-search integer square root on the full `u128` range.
fn isqrt_u128(n: u128) -> (r: u128)
    ensures
        r * r <= n,
        n < (r + 1) * (r + 1),
{
    if n == 0 {
        return 0;
    }
    let mut lo: u128 = 0;
    let mut hi: u128 = 18446744073709551616u128;
    proof {
        assert(n < 18446744073709551616int * 18446744073709551616int);
    }
    while lo + 1 < hi
        invariant
            lo < hi <= 18446744073709551616u128,
            lo * lo <= n,
            n < hi * hi,
        decreases hi - lo,
    {
        let mid: u128 = lo + (hi - lo) / 2;
        proof {
            assert(mid * mid <= 340282366920938463426481119284349108225int) by (nonlinear_arith)
                requires
                    mid <= 18446744073709551615u128,
            ;
        }
        let sq: u128 = mid * mid;
        if sq <= n {
            lo = mid;
        } else {
            hi = mid;
        }
    }
    lo
}

/// The fixed-point square root of a scalar: `isqrt` of the value rescaled
/// so that the result is again a scalar.
pub open spec fn fx_sqrt_spec(a: int) -> int {
    isqrt((a * SCALE) as nat) as int
}

/// Fixed-point square root of a nonnegative scalar.
pub fn fx_sqrt(a: i64) -> (r: i64)
    requires
        a >= 0,
    ensures
        r as int == fx_sqrt_spec(a as int),
        0 <= r,
{
    proof {
        assert(a as int * 1000000int <= 9223372036854775807int * 1000000int) by (nonlinear_arith)
            requires
                0 <= a as int <= 9223372036854775807int,
        ;
    }
    let n: u128 = (a as u128) * (SCALE as u128);
    let r: u128 = isqrt_u128(n);
    proof {
        lemma_isqrt_unique(n as nat, r as nat);
        assert(r <= 9223372036854775807int) by (nonlinear_arith)
            requires
                r * r <= n,
                n <= 9223372036854775807int * 1000000int,
        ;
    }
    r as i64
}

} // verus!
