//! Fixed-point arithmetic helpers: clamping, truncating signed division,
//! integer square root and integer cube root, each with an exact
//! specification-level definition that the executable code is proved to match.
use vstd::prelude::*;

verus! {

/// `x` clamped to the closed interval `[lo, hi]`.
pub open spec fn clamp_s(x: int, lo: int, hi: int) -> int {
    if x < lo {
        lo
    } else if x > hi {
        hi
    } else {
        x
    }
}

pub fn clamp_i64(x: i64, lo: i64, hi: i64) -> (r: i64)
    requires
        lo <= hi,
    ensures
        r == clamp_s(x as int, lo as int, hi as int),
{
    if x < lo {
        lo
    } else if x > hi {
        hi
    } else {
        x
    }
}

/// Absolute value.
pub open spec fn abs_s(x: int) -> int {
    if x < 0 {
        -x
    } else {
        x
    }
}

pub fn abs_i64(x: i64) -> (r: i64)
    requires
        x > i64::MIN,
    ensures
        r == abs_s(x as int),
{
    if x < 0 {
        -x
    } else {
        x
    }
}

/// Division truncating toward zero, the rounding used by all fixed-point
/// scaling steps. For a non-negative dividend this agrees with Euclidean
/// division.
pub open spec fn sdiv_s(a: int, d: int) -> int {
    if a >= 0 {
        a / d
    } else {
        -((-a) / d)
    }
}

pub fn sdiv(a: i64, d: i64) -> (r: i64)
    requires
        d > 0,
        a > i64::MIN,
    ensures
        r == sdiv_s(a as int, d as int),
        abs_s(r as int) <= abs_s(a as int),
{
    if a >= 0 {
        let q = (a as u64) / (d as u64);
        proof {
            vstd::arithmetic::div_mod::lemma_div_basics_5(a as int, d as int);
        }
        q as i64
    } else {
        let m = -a;
        let q = (m as u64) / (d as u64);
        proof {
            vstd::arithmetic::div_mod::lemma_div_basics_5(m as int, d as int);
        }
        -(q as i64)
    }
}

/// The magnitude of a truncating division is the Euclidean quotient of the
/// magnitudes.
pub proof fn lemma_sdiv_s_abs(a: int, d: int)
    requires
        d > 0,
    ensures
        abs_s(sdiv_s(a, d)) == abs_s(a) / d,
        abs_s(sdiv_s(a, d)) * d <= abs_s(a),
{
    let m = abs_s(a);
    vstd::arithmetic::div_mod::lemma_div_basics_4(m, d);
    vstd::arithmetic::div_mod::lemma_fundamental_div_mod(m, d);
    vstd::arithmetic::div_mod::lemma_mod_bound(m, d);
    assert(d * (m / d) <= m);
    assert(abs_s(sdiv_s(a, d)) == m / d);
}

/// Dividing a value of magnitude at most `bound * d` by `d` gives a value of
/// magnitude at most `bound`.
pub proof fn lemma_sdiv_s_le(a: int, d: int, bound: int)
    requires
        d > 0,
        0 <= bound,
        abs_s(a) <= bound * d,
    ensures
        abs_s(sdiv_s(a, d)) <= bound,
{
    lemma_sdiv_s_abs(a, d);
    assert(abs_s(a) / d <= bound) by (nonlinear_arith)
        requires
            d > 0,
            0 <= bound,
            0 <= abs_s(a) <= bound * d,
    {
        vstd::arithmetic::div_mod::lemma_fundamental_div_mod(abs_s(a), d);
        vstd::arithmetic::div_mod::lemma_mod_bound(abs_s(a), d);
    }
}

/// The product of two non-negative bounded values is bounded by the product
/// of the bounds.
pub proof fn lemma_mul_le(a: int, b: int, amax: int, bmax: int)
    requires
        0 <= a <= amax,
        0 <= b <= bmax,
    ensures
        0 <= a * b <= amax * bmax,
{
    assert(0 <= a * b <= amax * bmax) by (nonlinear_arith)
        requires
            0 <= a <= amax,
            0 <= b <= bmax,
    {
    }
}

/// The magnitude of a product is bounded by the product of the magnitudes'
/// bounds.
pub proof fn lemma_mul_abs_le(a: int, b: int, amax: int, bmax: int)
    requires
        abs_s(a) <= amax,
        abs_s(b) <= bmax,
    ensures
        abs_s(a * b) <= amax * bmax,
{
    assert(abs_s(a * b) <= amax * bmax) by (nonlinear_arith)
        requires
            abs_s(a) <= amax,
            abs_s(b) <= bmax,
    {
    }
}

/// `(a * b) / 1000` for milli-unit factors in `[0, 1000]`; the result is a
/// milli-unit value in `[0, 1000]` again.
pub fn mul_div_milli(a: i64, b: i64) -> (r: i64)
    requires
        0 <= a <= 1000,
        0 <= b <= 1000,
    ensures
        r == (a * b) / 1000,
        0 <= r <= 1000,
{
    proof {
        lemma_mul_le(a as int, b as int, 1000, 1000);
        vstd::arithmetic::div_mod::lemma_div_is_ordered(a as int * b, 1_000_000, 1000);
        vstd::arithmetic::div_mod::lemma_div_basics_4(a as int * b, 1000);
    }
    sdiv(a * b, 1000)
}

/// Largest `r <= b` with `r * r <= x`, by downward search.
pub open spec fn isqrt_from(x: int, b: int) -> int
    decreases b,
{
    if b <= 0 {
        0
    } else if b * b <= x {
        b
    } else {
        isqrt_from(x, b - 1)
    }
}

/// Integer square root, valid for `0 <= x < (2^23)^2`.
pub open spec fn isqrt_s(x: int) -> int {
    isqrt_from(x, 0x80_0000)
}

proof fn lemma_isqrt_from(x: int, b: int)
    requires
        0 <= x,
        0 <= b,
        x < (b + 1) * (b + 1),
    ensures
        0 <= isqrt_from(x, b) <= b,
        isqrt_from(x, b) * isqrt_from(x, b) <= x,
        x < (isqrt_from(x, b) + 1) * (isqrt_from(x, b) + 1),
    decreases b,
{
    if b <= 0 {
    } else if b * b <= x {
    } else {
        lemma_isqrt_from(x, b - 1);
    }
}

pub fn isqrt(x: i64) -> (r: i64)
    requires
        0 <= x,
        x < 0x4000_0000_0000,
    ensures
        r == isqrt_s(x as int),
        r * r <= x < (r + 1) * (r + 1),
        0 <= r <= 0x80_0000,
{
    let mut lo: i64 = 0;
    let mut hi: i64 = 0x80_0001;
    proof {
        assert(x < 0x80_0001 * 0x80_0001);
    }
    while lo + 1 < hi
        invariant
            0 <= lo < hi <= 0x80_0001,
            lo * lo <= x,
            x < hi * hi,
        decreases hi - lo,
    {
        let mid = lo + (hi - lo) / 2;
        proof {
            assert(mid * mid <= 0x80_0001 * 0x80_0001) by (nonlinear_arith)
                requires
                    0 <= mid <= 0x80_0001,
            {
            }
        }
        if mid * mid <= x {
            lo = mid;
        } else {
            hi = mid;
        }
    }
    proof {
        lemma_isqrt_from(x as int, 0x80_0000);
        let s = isqrt_from(x as int, 0x80_0000);
        assert(lo == s) by (nonlinear_arith)
            requires
                lo * lo <= x,
                x < (lo + 1) * (lo + 1),
                s * s <= x,
                x < (s + 1) * (s + 1),
                0 <= lo,
                0 <= s,
        {
        }
    }
    lo
}

/// What `isqrt_s` returns: the floor of the square root.
pub proof fn lemma_isqrt_s_char(x: int)
    requires
        0 <= x < 0x4000_0000_0000,
    ensures
        0 <= isqrt_s(x) <= 0x80_0000,
        isqrt_s(x) * isqrt_s(x) <= x,
        x < (isqrt_s(x) + 1) * (isqrt_s(x) + 1),
{
    assert((0x80_0000 + 1) * (0x80_0000 + 1) == 0x4000_0100_0001) by (nonlinear_arith);
    lemma_isqrt_from(x, 0x80_0000);
}

/// Largest `r <= b` with `r * r * r <= x`, by downward search.
pub open spec fn icbrt_from(x: int, b: int) -> int
    decreases b,
{
    if b <= 0 {
        0
    } else if b * b * b <= x {
        b
    } else {
        icbrt_from(x, b - 1)
    }
}

/// Integer cube root, valid for `0 <= x < (2^16 + 1)^3`.
pub open spec fn icbrt_s(x: int) -> int {
    icbrt_from(x, 0x1_0000)
}

proof fn lemma_icbrt_from(x: int, b: int)
    requires
        0 <= x,
        0 <= b,
        x < (b + 1) * (b + 1) * (b + 1),
    ensures
        0 <= icbrt_from(x, b) <= b,
        icbrt_from(x, b) * icbrt_from(x, b) * icbrt_from(x, b) <= x,
        x < (icbrt_from(x, b) + 1) * (icbrt_from(x, b) + 1) * (icbrt_from(x, b) + 1),
    decreases b,
{
    if b <= 0 {
    } else if b * b * b <= x {
    } else {
        lemma_icbrt_from(x, b - 1);
    }
}

/// What `icbrt_s` returns: the floor of the cube root.
pub proof fn lemma_icbrt_s_char(x: int)
    requires
        0 <= x <= 0x1_0000_0000_0000,
    ensures
        0 <= icbrt_s(x) <= 0x1_0000,
        icbrt_s(x) * icbrt_s(x) * icbrt_s(x) <= x,
        x < (icbrt_s(x) + 1) * (icbrt_s(x) + 1) * (icbrt_s(x) + 1),
{
    assert((0x1_0000 + 1) * (0x1_0000 + 1) * (0x1_0000 + 1) == 0x1_0003_0003_0001)
        by (nonlinear_arith);
    lemma_icbrt_from(x, 0x1_0000);
}

pub fn icbrt(x: i64) -> (r: i64)
    requires
        0 <= x,
        x <= 0x1_0000_0000_0000,
    ensures
        r == icbrt_s(x as int),
        r * r * r <= x < (r + 1) * (r + 1) * (r + 1),
        0 <= r <= 0x1_0000,
{
    let mut lo: i64 = 0;
    let mut hi: i64 = 0x1_0001;
    proof {
        assert(x < 0x1_0001 * 0x1_0001 * 0x1_0001);
    }
    while lo + 1 < hi
        invariant
            0 <= lo < hi <= 0x1_0001,
            lo * lo * lo <= x,
            x < hi * hi * hi,
        decreases hi - lo,
    {
        let mid = lo + (hi - lo) / 2;
        proof {
            assert(0 <= mid * mid <= 0x1_0001 * 0x1_0001 && 0 <= mid * mid * mid <= 0x1_0001
                * 0x1_0001 * 0x1_0001) by (nonlinear_arith)
                requires
                    0 <= mid <= 0x1_0001,
            {
            }
        }
        if mid * mid * mid <= x {
            lo = mid;
        } else {
            hi = mid;
        }
    }
    proof {
        lemma_icbrt_from(x as int, 0x1_0000);
        let s = icbrt_from(x as int, 0x1_0000);
        assert(lo == s) by (nonlinear_arith)
            requires
                lo * lo * lo <= x,
                x < (lo + 1) * (lo + 1) * (lo + 1),
                s * s * s <= x,
                x < (s + 1) * (s + 1) * (s + 1),
                0 <= lo,
                0 <= s,
        {
        }
    }
    lo
}

} // verus!
