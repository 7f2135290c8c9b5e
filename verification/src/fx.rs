//! Saturating fixed-point scalars.
//!
//! A raw `i64` value `v` stands for the real number `v / SCALE`. Every
//! operation clamps its result to `[-FX_MAX, FX_MAX]`, so arithmetic is
//! total: no overflow and no division by zero can occur in the engine.

use vstd::prelude::*;

verus! {

/// Number of fixed-point sub-units per whole unit.
pub const SCALE: i64 = 1000;

/// Largest magnitude a scalar may hold; every operation saturates here.
pub const FX_MAX: i64 = 0x4000_0000;

pub open spec fn fx_in_range(v: int) -> bool {
    -(FX_MAX as int) <= v <= FX_MAX as int
}

/// Saturation applied by every arithmetic operation.
pub open spec fn spec_clamp(v: int) -> int {
    if v > FX_MAX as int {
        FX_MAX as int
    } else if v < -(FX_MAX as int) {
        -(FX_MAX as int)
    } else {
        v
    }
}

/// Division truncating toward zero, defined for a positive divisor.
pub open spec fn spec_tdiv(p: int, q: int) -> int {
    if p >= 0 {
        p / q
    } else {
        -((-p) / q)
    }
}

/// The fixed-point product: `(a * b) / SCALE`, truncated, then clamped.
pub open spec fn spec_fx_mul(a: int, b: int) -> int {
    spec_clamp(spec_tdiv(a * b, SCALE as int))
}

/// The fixed-point quotient: `(a * SCALE) / b`, truncated, then clamped.
pub open spec fn spec_fx_div(a: int, b: int) -> int {
    spec_clamp(spec_tdiv(a * SCALE as int, b))
}

pub open spec fn is_isqrt(r: int, v: int) -> bool {
    0 <= r && r * r <= v && v < (r + 1) * (r + 1)
}

/// The integer square root: the unique `r >= 0` with `r * r <= v < (r+1)^2`.
pub open spec fn spec_isqrt(v: int) -> int {
    choose|r: int| is_isqrt(r, v)
}

pub fn fx_clamp(v: i64) -> (r: i64)
    ensures
        r as int == spec_clamp(v as int),
        fx_in_range(r as int),
{
    if v > FX_MAX {
        FX_MAX
    } else if v < -FX_MAX {
        -FX_MAX
    } else {
        v
    }
}

pub fn fx_add(a: i64, b: i64) -> (r: i64)
    requires
        fx_in_range(a as int),
        fx_in_range(b as int),
    ensures
        r as int == spec_clamp(a + b),
        fx_in_range(r as int),
{
    fx_clamp(a + b)
}

pub fn fx_sub(a: i64, b: i64) -> (r: i64)
    requires
        fx_in_range(a as int),
        fx_in_range(b as int),
    ensures
        r as int == spec_clamp(a - b),
        fx_in_range(r as int),
{
    fx_clamp(a - b)
}

/// Truncating division by a positive divisor, via unsigned division on
/// the magnitude.
fn tdiv_pos(p: i64, q: i64) -> (r: i64)
    requires
        p > i64::MIN,
        0 < q,
    ensures
        r as int == spec_tdiv(p as int, q as int),
{
    if p >= 0 {
        let pu: u64 = p as u64;
        let qu: u64 = q as u64;
        let d: u64 = pu / qu;
        proof {
            vstd::arithmetic::div_mod::lemma_div_nonincreasing(pu as int, qu as int);
        }
        d as i64
    } else {
        let m: i64 = -p;
        let mu: u64 = m as u64;
        let qu: u64 = q as u64;
        let d: u64 = mu / qu;
        proof {
            vstd::arithmetic::div_mod::lemma_div_nonincreasing(mu as int, qu as int);
        }
        -(d as i64)
    }
}

pub fn fx_mul(a: i64, b: i64) -> (r: i64)
    requires
        fx_in_range(a as int),
        fx_in_range(b as int),
    ensures
        r as int == spec_fx_mul(a as int, b as int),
        fx_in_range(r as int),
{
    proof {
        assert((a as int) * (b as int) <= (FX_MAX as int) * (FX_MAX as int)
            && -((FX_MAX as int) * (FX_MAX as int)) <= (a as int) * (b as int))
            by (nonlinear_arith)
            requires
                fx_in_range(a as int),
                fx_in_range(b as int),
        ;
    }
    let p: i64 = a * b;
    fx_clamp(tdiv_pos(p, SCALE))
}

pub fn fx_div(a: i64, b: i64) -> (r: i64)
    requires
        fx_in_range(a as int),
        0 < b,
    ensures
        r as int == spec_fx_div(a as int, b as int),
        fx_in_range(r as int),
{
    let p: i64 = a * SCALE;
    fx_clamp(tdiv_pos(p, b))
}

pub proof fn lemma_isqrt_char(v: int, r: int)
    requires
        is_isqrt(r, v),
    ensures
        spec_isqrt(v) == r,
{
    assert(exists|c: int| is_isqrt(c, v)) by {
        assert(is_isqrt(r, v));
    }
    let c = spec_isqrt(v);
    assert(is_isqrt(c, v));
    if c < r {
        assert((c + 1) * (c + 1) <= r * r) by (nonlinear_arith)
            requires
                0 <= c,
                c < r,
        ;
    } else if r < c {
        assert((r + 1) * (r + 1) <= c * c) by (nonlinear_arith)
            requires
                0 <= r,
                r < c,
        ;
    }
}

pub fn isqrt_u64(v: u64) -> (r: u64)
    ensures
        r as int == spec_isqrt(v as int),
        is_isqrt(r as int, v as int),
        r <= 0x1_0000_0000u64,
{
    let mut lo: u64 = 0;
    let mut hi: u64 = 0x1_0000_0000;
    proof {
        assert((0x1_0000_0000 as int) * (0x1_0000_0000 as int) > u64::MAX as int) by (nonlinear_arith);
    }
    while lo + 1 < hi
        invariant
            lo < hi <= 0x1_0000_0000u64,
            (lo as int) * (lo as int) <= v as int,
            (v as int) < (hi as int) * (hi as int),
        decreases hi - lo,
    {
        let mid: u64 = lo + (hi - lo) / 2;
        proof {
            assert((mid as int) * (mid as int) < u64::MAX as int) by (nonlinear_arith)
                requires
                    mid < 0x1_0000_0000u64,
            ;
        }
        if mid * mid <= v {
            lo = mid;
        } else {
            hi = mid;
        }
    }
    proof {
        lemma_isqrt_char(v as int, lo as int);
    }
    lo
}

/// Saturation is an odd function.
pub proof fn lemma_clamp_neg(v: int)
    ensures
        spec_clamp(-v) == -spec_clamp(v),
{
}

/// Truncating division is odd in its dividend.
pub proof fn lemma_tdiv_neg(p: int, q: int)
    requires
        0 < q,
    ensures
        spec_tdiv(-p, q) == -spec_tdiv(p, q),
{
}

/// The fixed-point product is odd in each factor.
pub proof fn lemma_fx_mul_neg(a: int, b: int)
    ensures
        spec_fx_mul(a, -b) == -spec_fx_mul(a, b),
        spec_fx_mul(-a, b) == -spec_fx_mul(a, b),
{
    assert(a * -b == -(a * b)) by (nonlinear_arith);
    assert(-a * b == -(a * b)) by (nonlinear_arith);
    lemma_tdiv_neg(a * b, SCALE as int);
    lemma_clamp_neg(spec_tdiv(a * b, SCALE as int));
}

/// The fixed-point quotient is odd in its dividend.
pub proof fn lemma_fx_div_neg(a: int, b: int)
    requires
        0 < b,
    ensures
        spec_fx_div(-a, b) == -spec_fx_div(a, b),
{
    assert(-a * SCALE as int == -(a * SCALE as int)) by (nonlinear_arith);
    lemma_tdiv_neg(a * SCALE as int, b);
    lemma_clamp_neg(spec_tdiv(a * SCALE as int, b));
}


/// Every non-negative integer has an integer square root, so
/// `spec_isqrt` is characterized on all such inputs.
pub proof fn lemma_isqrt_exists(v: int)
    requires
        0 <= v,
    ensures
        is_isqrt(spec_isqrt(v), v),
    decreases v,
{
    if v == 0 {
        assert(is_isqrt(0, 0));
        lemma_isqrt_char(0, 0);
    } else {
        lemma_isqrt_exists(v - 1);
        let r = spec_isqrt(v - 1);
        if (r + 1) * (r + 1) <= v {
            assert((r + 2) * (r + 2) > v) by (nonlinear_arith)
                requires
                    0 <= r,
                    v <= (r + 1) * (r + 1),
            ;
            assert(is_isqrt(r + 1, v));
            lemma_isqrt_char(v, r + 1);
        } else {
            assert(is_isqrt(r, v));
            lemma_isqrt_char(v, r);
        }
    }
}

/// Truncating division keeps magnitudes: if `|p| <= m * q` then
/// `|p / q| <= m`.
pub proof fn lemma_tdiv_mag_le(p: int, q: int, m: int)
    requires
        0 < q,
        0 <= m,
        -(m * q) <= p <= m * q,
    ensures
        -m <= spec_tdiv(p, q) <= m,
{
    if p >= 0 {
        vstd::arithmetic::div_mod::lemma_div_pos_is_pos(p, q);
        vstd::arithmetic::div_mod::lemma_div_is_ordered(p, m * q, q);
        assert(m * q == q * m) by (nonlinear_arith);
        vstd::arithmetic::div_mod::lemma_div_multiples_vanish(m, q);
    } else {
        vstd::arithmetic::div_mod::lemma_div_pos_is_pos(-p, q);
        vstd::arithmetic::div_mod::lemma_div_is_ordered(-p, m * q, q);
        assert(m * q == q * m) by (nonlinear_arith);
        vstd::arithmetic::div_mod::lemma_div_multiples_vanish(m, q);
    }
}

/// Multiplying by a factor of magnitude at most one whole unit does
/// not grow the other factor's magnitude.
pub proof fn lemma_fx_mul_mag_le(a: int, b: int, m: int)
    requires
        -(SCALE as int) <= b <= SCALE as int,
        -m <= a <= m,
        0 <= m <= FX_MAX as int,
    ensures
        -m <= spec_fx_mul(a, b) <= m,
{
    assert(-(m * SCALE as int) <= a * b <= m * SCALE as int) by (nonlinear_arith)
        requires
            -(SCALE as int) <= b <= SCALE as int,
            -m <= a <= m,
            0 <= m,
    ;
    lemma_tdiv_mag_le(a * b, SCALE as int, m);
}

} // verus!
