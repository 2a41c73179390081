//! Saturating fixed-point scalars and 2D vectors.
//!
//! Every physical quantity is stored as an `i64` counting multiples of
//! `1 / FX_ONE` of a world unit.  Arithmetic is exact integer arithmetic in
//! `i128`, rounded toward zero where a division occurs, and saturated into
//! `[FX_MIN, FX_MAX]`.  The saturation bounds are symmetric, so negation
//! never overflows and distances are symmetric in their endpoints.

use vstd::prelude::*;
use vstd::arithmetic::div_mod::lemma_fundamental_div_mod;

verus! {

/// Number of fixed-point steps in one world unit (2^32).
pub const FX_ONE: i64 = 4294967296;

/// Largest representable value; arithmetic saturates here instead of wrapping.
pub const FX_MAX: i64 = 9223372036854775807;

/// Smallest representable value, chosen as `-FX_MAX` so the range is symmetric.
pub const FX_MIN: i64 = -9223372036854775807;

/// Saturate an unbounded integer into the representable range.
pub open spec fn clip(x: int) -> int {
    if x > FX_MAX as int {
        FX_MAX as int
    } else if x < FX_MIN as int {
        FX_MIN as int
    } else {
        x
    }
}

/// Quotient rounded toward zero, as the `/` of the machine; meaningful for `b > 0`.
pub open spec fn tdiv(a: int, b: int) -> int {
    if a >= 0 {
        a / b
    } else {
        -((-a) / b)
    }
}

/// Saturating fixed-point addition.
pub open spec fn fadd(a: int, b: int) -> int {
    clip(a + b)
}

/// Saturating fixed-point subtraction.
pub open spec fn fsub(a: int, b: int) -> int {
    clip(a - b)
}

/// Saturating fixed-point multiplication: `a * b` rescaled by `1 / FX_ONE`.
pub open spec fn fmul(a: int, b: int) -> int {
    clip(tdiv(a * b, FX_ONE as int))
}

/// Saturating fixed-point division: `a / b` rescaled by `FX_ONE`; meaningful for `b > 0`.
pub open spec fn fdiv(a: int, b: int) -> int {
    clip(tdiv(a * FX_ONE, b))
}

/// Saturating product of a plain integer count with a fixed-point value.
pub open spec fn smul(n: int, a: int) -> int {
    clip(n * a)
}

/// A 2D vector of fixed-point coordinates.
#[derive(Clone, Copy, PartialEq, Eq, Structural, Debug)]
pub struct V2 {
    pub x: i64,
    pub y: i64,
}

/// Squared distance between two points, accumulated with saturating ops.
pub open spec fn dist2(p: V2, q: V2) -> int {
    fadd(
        fmul(fsub(p.x as int, q.x as int), fsub(p.x as int, q.x as int)),
        fmul(fsub(p.y as int, q.y as int), fsub(p.y as int, q.y as int)),
    )
}

fn clip128(x: i128) -> (r: i64)
    ensures
        r as int == clip(x as int),
{
    if x > FX_MAX as i128 {
        FX_MAX
    } else if x < FX_MIN as i128 {
        FX_MIN
    } else {
        x as i64
    }
}

fn tdiv128(a: i128, b: i128) -> (r: i128)
    requires
        b > 0,
        a > i128::MIN,
    ensures
        r as int == tdiv(a as int, b as int),
{
    if a >= 0 {
        let q = (a as u128) / (b as u128);
        proof {
            lemma_quotient_le(a as int, b as int);
        }
        q as i128
    } else {
        let n = (-a) as u128;
        let q = n / (b as u128);
        proof {
            lemma_quotient_le(n as int, b as int);
        }
        -(q as i128)
    }
}

/// A quotient of non-negative by positive lies between zero and the dividend.
pub proof fn lemma_quotient_le(a: int, b: int)
    requires
        a >= 0,
        b > 0,
    ensures
        0 <= a / b <= a,
{
    lemma_fundamental_div_mod(a, b);
    vstd::arithmetic::div_mod::lemma_div_pos_is_pos(a, b);
    assert(a / b <= a) by (nonlinear_arith)
        requires
            a >= 0,
            b > 0,
            a / b >= 0,
            b * (a / b) + a % b == a,
            a % b >= 0,
    {}
}

proof fn lemma_abs_product_bound(a: int, b: int, m: int, n: int)
    requires
        -m <= a <= m,
        -n <= b <= n,
        m >= 0,
        n >= 0,
    ensures
        -(m * n) <= a * b <= m * n,
{
    assert(-(m * n) <= a * b <= m * n) by (nonlinear_arith)
        requires
            -m <= a <= m,
            -n <= b <= n,
            m >= 0,
            n >= 0,
    {}
}

/// Saturating addition on fixed-point scalars.
pub fn fadd_fx(a: i64, b: i64) -> (r: i64)
    ensures
        r as int == fadd(a as int, b as int),
{
    clip128(a as i128 + b as i128)
}

/// Saturating subtraction on fixed-point scalars.
pub fn fsub_fx(a: i64, b: i64) -> (r: i64)
    ensures
        r as int == fsub(a as int, b as int),
{
    clip128(a as i128 - b as i128)
}

/// Saturating multiplication on fixed-point scalars.
pub fn fmul_fx(a: i64, b: i64) -> (r: i64)
    ensures
        r as int == fmul(a as int, b as int),
{
    proof {
        lemma_abs_product_bound(a as int, b as int, i64::MAX as int + 1, i64::MAX as int + 1);
    }
    clip128(tdiv128((a as i128) * (b as i128), FX_ONE as i128))
}

/// Saturating division on fixed-point scalars; the divisor must be positive.
pub fn fdiv_fx(a: i64, b: i64) -> (r: i64)
    requires
        b > 0,
    ensures
        r as int == fdiv(a as int, b as int),
{
    proof {
        lemma_abs_product_bound(a as int, FX_ONE as int, i64::MAX as int + 1, FX_ONE as int);
    }
    clip128(tdiv128((a as i128) * (FX_ONE as i128), b as i128))
}

/// Saturating product of a plain count with a fixed-point scalar.
pub fn smul_fx(n: i64, a: i64) -> (r: i64)
    ensures
        r as int == smul(n as int, a as int),
{
    proof {
        lemma_abs_product_bound(n as int, a as int, i64::MAX as int + 1, i64::MAX as int + 1);
    }
    clip128((n as i128) * (a as i128))
}

/// Squared distance between two points.
pub fn dist2_fx(p: V2, q: V2) -> (r: i64)
    ensures
        r as int == dist2(p, q),
{
    let dx = fsub_fx(p.x, q.x);
    let dy = fsub_fx(p.y, q.y);
    fadd_fx(fmul_fx(dx, dx), fmul_fx(dy, dy))
}

/// Saturation commutes with negation because the range is symmetric.
pub proof fn lemma_clip_neg(x: int)
    ensures
        clip(-x) == -clip(x),
{
}

/// Rounding toward zero commutes with negating the dividend.
pub proof fn lemma_tdiv_neg(a: int, b: int)
    requires
        b > 0,
    ensures
        tdiv(-a, b) == -tdiv(a, b),
{
}

/// A product with one factor negated is the negated product.
pub proof fn lemma_fmul_neg(a: int, b: int)
    ensures
        fmul(a, -b) == -fmul(a, b),
{
    assert(a * -b == -(a * b)) by (nonlinear_arith) {}
    lemma_tdiv_neg(a * b, FX_ONE as int);
    lemma_clip_neg(tdiv(a * b, FX_ONE as int));
}

/// Subtraction flips sign when its arguments swap.
pub proof fn lemma_fsub_antisym(a: int, b: int)
    ensures
        fsub(a, b) == -fsub(b, a),
{
    lemma_clip_neg(b - a);
}

/// A product of non-negative factors is non-negative.
pub proof fn lemma_fmul_nonneg(a: int, b: int)
    requires
        a >= 0,
        b >= 0,
    ensures
        fmul(a, b) >= 0,
{
    assert(a * b >= 0) by (nonlinear_arith)
        requires
            a >= 0,
            b >= 0,
    {}
    lemma_quotient_le(a * b, FX_ONE as int);
}

/// A square is non-negative.
pub proof fn lemma_fmul_sq_nonneg(a: int)
    ensures
        fmul(a, a) >= 0,
{
    assert(a * a >= 0) by (nonlinear_arith) {}
    lemma_quotient_le(a * a, FX_ONE as int);
}

/// Adding a non-negative value to a non-negative value cannot go below either bound.
pub proof fn lemma_fadd_ge(a: int, b: int)
    requires
        0 <= a <= FX_MAX,
        b >= 0,
    ensures
        fadd(a, b) >= a,
{
}

/// Multiplying by zero gives zero.
pub proof fn lemma_fmul_zero(a: int)
    ensures
        fmul(a, 0) == 0,
        fmul(0, a) == 0,
{
    assert(a * 0 == 0) by (nonlinear_arith) {}
    assert(0 * a == 0) by (nonlinear_arith) {}
    vstd::arithmetic::div_mod::lemma_div_of0(FX_ONE as int);
}

/// The distance from a point to itself is zero.
pub proof fn lemma_dist2_self(p: V2)
    ensures
        dist2(p, p) == 0,
{
    lemma_fmul_zero(0);
}

/// Squared distance does not depend on the order of its endpoints.
pub proof fn lemma_dist2_symmetric(p: V2, q: V2)
    ensures
        dist2(p, q) == dist2(q, p),
{
    let ax = fsub(p.x as int, q.x as int);
    let ay = fsub(p.y as int, q.y as int);
    lemma_fsub_antisym(p.x as int, q.x as int);
    lemma_fsub_antisym(p.y as int, q.y as int);
    lemma_fmul_neg(-ax, ax);
    lemma_fmul_neg(ax, ax);
    lemma_fmul_neg(-ay, ay);
    lemma_fmul_neg(ay, ay);
    assert(fmul(-ax, -ax) == fmul(ax, ax));
    assert(fmul(-ay, -ay) == fmul(ay, ay));
}

/// A quotient of a non-negative value by a positive one is non-negative.
pub proof fn lemma_fdiv_nonneg(a: int, b: int)
    requires
        a >= 0,
        b > 0,
    ensures
        fdiv(a, b) >= 0,
{
    assert(a * FX_ONE >= 0) by (nonlinear_arith)
        requires
            a >= 0,
    {}
    lemma_quotient_le(a * FX_ONE, b);
}

} // verus!
