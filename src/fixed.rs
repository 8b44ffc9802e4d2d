//! Fixed-point scalars. A value `v` stands for the real number `v / SCALE`.
//! Results saturate at `±LIMIT`, the way a float overflows to infinity.
use vstd::prelude::*;

verus! {

/// Raw units per unit: one millionth is the resolution.
pub const SCALE: i64 = 1_000_000;

/// Largest magnitude a scalar may hold (a billion units).
pub const LIMIT: i64 = 1_000_000_000_000_000;

pub open spec fn in_range(v: int) -> bool {
    -LIMIT <= v <= LIMIT
}

/// Saturate into `[-LIMIT, LIMIT]`.
pub open spec fn clamp(v: int) -> int {
    if v > LIMIT {
        LIMIT as int
    } else if v < -LIMIT {
        -LIMIT
    } else {
        v
    }
}

/// Quotient rounded toward zero, for a positive divisor.
pub open spec fn tdiv(a: int, d: int) -> int {
    if a >= 0 {
        a / d
    } else {
        -((-a) / d)
    }
}

/// Fixed-point product.
pub open spec fn mul_spec(a: int, b: int) -> int {
    clamp(tdiv(a * b, SCALE as int))
}

/// Fixed-point quotient, for a non-zero divisor.
pub open spec fn div_spec(a: int, b: int) -> int {
    if b > 0 {
        clamp(tdiv(a * SCALE, b))
    } else {
        clamp(tdiv(-a * SCALE, -b))
    }
}

/// Fixed-point sum.
pub open spec fn add_spec(a: int, b: int) -> int {
    clamp(a + b)
}

/// Fixed-point difference.
pub open spec fn sub_spec(a: int, b: int) -> int {
    clamp(a - b)
}

/// The fixed-point square root of a non-negative `a`: the largest `r`
/// with `r * r <= a * SCALE`.
pub open spec fn is_sqrt(a: int, r: int) -> bool {
    &&& 0 <= r
    &&& r * r <= a * SCALE
    &&& a * SCALE < (r + 1) * (r + 1)
}

/// The fixed-point square root, which `is_sqrt` determines uniquely.
pub open spec fn sqrt_spec(a: int) -> int {
    choose|r: int| is_sqrt(a, r)
}

proof fn lemma_isqrt_exists(n: int) -> (r: int)
    requires
        0 <= n,
    ensures
        0 <= r,
        r * r <= n < (r + 1) * (r + 1),
    decreases n,
{
    if n == 0 {
        0
    } else {
        let q = lemma_isqrt_exists(n - 1);
        if (q + 1) * (q + 1) <= n {
            assert(n < (q + 2) * (q + 2)) by (nonlinear_arith)
                requires
                    0 <= q,
                    n - 1 < (q + 1) * (q + 1),
                    (q + 1) * (q + 1) <= n,
            ;
            q + 1
        } else {
            q
        }
    }
}

/// Every non-negative scalar has its square root.
pub proof fn lemma_sqrt_exists(a: int)
    requires
        0 <= a,
    ensures
        is_sqrt(a, sqrt_spec(a)),
{
    let r = lemma_isqrt_exists(a * SCALE);
    assert(is_sqrt(a, r));
}

pub proof fn lemma_sqrt_unique(a: int, r1: int, r2: int)
    requires
        is_sqrt(a, r1),
        is_sqrt(a, r2),
    ensures
        r1 == r2,
{
    if r1 < r2 {
        assert((r1 + 1) * (r1 + 1) <= r2 * r2) by (nonlinear_arith)
            requires
                0 <= r1 + 1 <= r2,
        ;
    } else if r2 < r1 {
        assert((r2 + 1) * (r2 + 1) <= r1 * r1) by (nonlinear_arith)
            requires
                0 <= r2 + 1 <= r1,
        ;
    }
}

pub proof fn lemma_sqrt_spec(a: int, r: int)
    requires
        is_sqrt(a, r),
    ensures
        sqrt_spec(a) == r,
{
    let c = sqrt_spec(a);
    assert(is_sqrt(a, c));
    lemma_sqrt_unique(a, c, r);
}

pub proof fn lemma_tdiv_bounds(a: int, d: int)
    requires
        d > 0,
    ensures
        a >= 0 ==> 0 <= tdiv(a, d) <= a,
        a <= 0 ==> a <= tdiv(a, d) <= 0,
        d * tdiv(a, d) <= a || a < 0,
{
    if a >= 0 {
        assert(a / d <= a) by (nonlinear_arith)
            requires
                a >= 0,
                d > 0,
        ;
        assert(d * (a / d) <= a) by (nonlinear_arith)
            requires
                a >= 0,
                d > 0,
        ;
    } else {
        assert((-a) / d <= -a) by (nonlinear_arith)
            requires
                -a >= 0,
                d > 0,
        ;
    }
}

/// `tdiv` keeps the order of its dividends.
pub proof fn lemma_tdiv_monotone(a: int, b: int, d: int)
    requires
        d > 0,
        a <= b,
    ensures
        tdiv(a, d) <= tdiv(b, d),
{
    if a >= 0 {
        vstd::arithmetic::div_mod::lemma_div_is_ordered(a, b, d);
    } else if b >= 0 {
        lemma_tdiv_bounds(a, d);
        lemma_tdiv_bounds(b, d);
    } else {
        vstd::arithmetic::div_mod::lemma_div_is_ordered(-b, -a, d);
    }
}

fn clamp_wide(v: i128) -> (r: i64)
    ensures
        r == clamp(v as int),
{
    if v > LIMIT as i128 {
        LIMIT
    } else if v < -(LIMIT as i128) {
        -LIMIT
    } else {
        v as i64
    }
}

fn tdiv_wide(a: i128, d: i128) -> (r: i128)
    requires
        d > 0,
        a > i128::MIN,
    ensures
        r == tdiv(a as int, d as int),
{
    proof {
        lemma_tdiv_bounds(a as int, d as int);
    }
    if a >= 0 {
        a / d
    } else {
        -((-a) / d)
    }
}

/// The product of two fixed-point scalars.
pub fn fmul(a: i64, b: i64) -> (r: i64)
    requires
        in_range(a as int),
        in_range(b as int),
    ensures
        r == mul_spec(a as int, b as int),
        in_range(r as int),
{
    proof {
        assert(-1_000_000_000_000_000_000_000_000_000_000int <= a * b
            <= 1_000_000_000_000_000_000_000_000_000_000int) by (nonlinear_arith)
            requires
                in_range(a as int),
                in_range(b as int),
        ;
    }
    let p: i128 = (a as i128) * (b as i128);
    clamp_wide(tdiv_wide(p, SCALE as i128))
}

/// The quotient of two fixed-point scalars.
pub fn fdiv(a: i64, b: i64) -> (r: i64)
    requires
        in_range(a as int),
        in_range(b as int),
        b != 0,
    ensures
        r == div_spec(a as int, b as int),
        in_range(r as int),
{
    let p: i128 = (a as i128) * (SCALE as i128);
    if b > 0 {
        clamp_wide(tdiv_wide(p, b as i128))
    } else {
        clamp_wide(tdiv_wide(-p, -(b as i128)))
    }
}

/// The sum of two fixed-point scalars.
pub fn fadd(a: i64, b: i64) -> (r: i64)
    requires
        in_range(a as int),
        in_range(b as int),
    ensures
        r == add_spec(a as int, b as int),
        in_range(r as int),
{
    clamp_wide(a as i128 + b as i128)
}

/// The difference of two fixed-point scalars.
pub fn fsub(a: i64, b: i64) -> (r: i64)
    requires
        in_range(a as int),
        in_range(b as int),
    ensures
        r == sub_spec(a as int, b as int),
        in_range(r as int),
{
    clamp_wide(a as i128 - b as i128)
}

/// Integer square root: the largest `r` with `r * r <= n`.
pub fn isqrt(n: u128) -> (r: u64)
    requires
        n < 0x1_0000_0000_0000_0000_0000,
    ensures
        r * r <= n < (r + 1) * (r + 1),
{
    let mut lo: u64 = 0;
    let mut hi: u64 = 0x100_0000_0000;
    assert(hi * hi == 0x1_0000_0000_0000_0000_0000);
    while hi - lo > 1
        invariant
            lo < hi <= 0x100_0000_0000,
            lo * lo <= n,
            n < hi * hi,
        decreases hi - lo,
    {
        let mid: u64 = lo + (hi - lo) / 2;
        assert(mid * mid <= 0x100_0000_0000 * 0x100_0000_0000) by (nonlinear_arith)
            requires
                mid <= 0x100_0000_0000,
        ;
        let sq: u128 = (mid as u128) * (mid as u128);
        if sq <= n {
            lo = mid;
        } else {
            hi = mid;
        }
    }
    lo
}

/// The fixed-point square root of a non-negative scalar.
pub fn fsqrt(a: i64) -> (r: i64)
    requires
        0 <= a <= LIMIT,
    ensures
        is_sqrt(a as int, r as int),
        r == sqrt_spec(a as int),
        0 <= r <= LIMIT,
{
    let n: u128 = (a as u128) * (SCALE as u128);
    let s: u64 = isqrt(n);
    proof {
        assert(s <= 40_000_000_000) by (nonlinear_arith)
            requires
                s * s <= n,
                n <= 1_000_000_000_000_000_000_000,
        ;
        lemma_sqrt_spec(a as int, s as int);
    }
    s as i64
}

} // verus!
