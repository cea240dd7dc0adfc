//! Fixed-point scalars: an `i64` holding a real number times `SCALE`.
use vstd::arithmetic::div_mod::{lemma_fundamental_div_mod, lemma_fundamental_div_mod_converse};
use vstd::prelude::*;

verus! {

/// Raw units that make 1.0.
pub const SCALE: i64 = 1_000_000;

/// Largest magnitude a scalar result takes; results beyond it saturate.
pub const LIMIT: i64 = 1_152_921_504_606_846_976;

/// Saturation of an exact value into `[-LIMIT, LIMIT]`.
pub open spec fn clamp(v: int) -> int {
    if v > LIMIT {
        LIMIT as int
    } else if v < -LIMIT {
        -LIMIT
    } else {
        v
    }
}

pub open spec fn fadd(a: int, b: int) -> int {
    clamp(a + b)
}

pub open spec fn fsub(a: int, b: int) -> int {
    clamp(a - b)
}

/// Product, rounded down to the next raw unit.
pub open spec fn fmul(a: int, b: int) -> int {
    clamp((a * b) / (SCALE as int))
}

/// Quotient, rounded down; a zero divisor gives zero.
pub open spec fn fdiv(a: int, b: int) -> int {
    if b == 0 {
        0
    } else if b > 0 {
        clamp((a * SCALE) / b)
    } else {
        clamp((-a * SCALE) / (-b))
    }
}

/// `r` is the integer square root of `n`.
pub open spec fn is_root(n: int, r: int) -> bool {
    0 <= r && r * r <= n && n < (r + 1) * (r + 1)
}

pub open spec fn isqrt(n: int) -> int {
    choose|r: int| is_root(n, r)
}

/// Square root, rounded down; a negative argument gives zero.
pub open spec fn fsqrt(a: int) -> int {
    if a <= 0 {
        0
    } else {
        clamp(isqrt(a * SCALE))
    }
}

pub open spec fn fmax(a: int, b: int) -> int {
    if a >= b {
        a
    } else {
        b
    }
}

pub open spec fn fmin(a: int, b: int) -> int {
    if a <= b {
        a
    } else {
        b
    }
}

/// Products of two 64-bit values fit well inside 128 bits.
proof fn lemma_wide_product(a: int, b: int)
    requires
        -0x8000_0000_0000_0000 <= a <= 0x8000_0000_0000_0000,
        -0x8000_0000_0000_0000 <= b <= 0x8000_0000_0000_0000,
    ensures
        -0x4000_0000_0000_0000_0000_0000_0000_0000 <= a * b <= 0x4000_0000_0000_0000_0000_0000_0000_0000,
{
    assert(-0x4000_0000_0000_0000_0000_0000_0000_0000 <= a * b <= 0x4000_0000_0000_0000_0000_0000_0000_0000)
        by (nonlinear_arith)
        requires
            -0x8000_0000_0000_0000 <= a <= 0x8000_0000_0000_0000,
            -0x8000_0000_0000_0000 <= b <= 0x8000_0000_0000_0000,
    ;
}

pub open spec fn fabs(a: int) -> int {
    if a < 0 {
        clamp(-a)
    } else {
        a
    }
}

pub proof fn lemma_clamp_bounds(v: int)
    ensures
        -LIMIT <= clamp(v) <= LIMIT,
        -LIMIT <= v <= LIMIT ==> clamp(v) == v,
{
}

/// Integer square roots are unique.
pub proof fn lemma_root_unique(n: int, r1: int, r2: int)
    requires
        is_root(n, r1),
        is_root(n, r2),
    ensures
        r1 == r2,
{
    if r1 < r2 {
        assert((r1 + 1) * (r1 + 1) <= r2 * r2) by (nonlinear_arith)
            requires
                0 <= r1 + 1 <= r2,
        ;
    } else if r2 < r1 {
        assert((r2 + 1) * (r2 + 1) <= r1 * r1) by (nonlinear_arith)
            requires
                0 <= r2 + 1 <= r1,
        ;
    }
}

/// Whatever root a witness shows, `isqrt` names it.
pub proof fn lemma_isqrt_is(n: int, r: int)
    requires
        is_root(n, r),
    ensures
        isqrt(n) == r,
{
    let c = isqrt(n);
    assert(is_root(n, c));
    lemma_root_unique(n, c, r);
}

/// Every `n` in `[0, (k + 1)^2)` has an integer square root in `[0, k]`.
pub proof fn lemma_root_exists(n: int, k: int)
    requires
        0 <= k,
        0 <= n < (k + 1) * (k + 1),
    ensures
        is_root(n, isqrt(n)),
    decreases k,
{
    if k * k <= n {
        assert(is_root(n, k));
    } else {
        assert(k > 0) by (nonlinear_arith)
            requires
                n < k * k,
                0 <= n,
                0 <= k,
        ;
        lemma_root_exists(n, k - 1);
    }
}

fn saturate(v: i128) -> (r: i64)
    ensures
        r == clamp(v as int),
{
    if v > LIMIT as i128 {
        LIMIT
    } else if v < -(LIMIT as i128) {
        -LIMIT
    } else {
        v as i64
    }
}

/// Floor division by a positive divisor.
fn floor_div(n: i128, d: u128) -> (q: i128)
    requires
        d > 0,
        -0x4000_0000_0000_0000_0000_0000_0000_0000 <= n <= 0x4000_0000_0000_0000_0000_0000_0000_0000,
    ensures
        q == (n as int) / (d as int),
{
    if n >= 0 {
        let q = (n as u128) / d;
        q as i128
    } else {
        let m = (-n) as u128;
        let q = m / d;
        let rem = m % d;
        proof {
            lemma_fundamental_div_mod(m as int, d as int);
            assert(m as int == q * d + rem) by (nonlinear_arith)
                requires
                    m as int == d * q + rem,
            ;
        }
        if rem == 0 {
            proof {
                assert(n as int == (-(q as int)) * (d as int) + 0) by (nonlinear_arith)
                    requires
                        m as int == q * d + rem,
                        rem == 0,
                        n as int == -(m as int),
                ;
                lemma_fundamental_div_mod_converse(n as int, d as int, -(q as int), 0);
            }
            -(q as i128)
        } else {
            proof {
                assert(n as int == (-(q as int) - 1) * (d as int) + (d - rem)) by (nonlinear_arith)
                    requires
                        m as int == q * d + rem,
                        n as int == -(m as int),
                ;
                lemma_fundamental_div_mod_converse(
                    n as int,
                    d as int,
                    -(q as int) - 1,
                    (d - rem) as int,
                );
            }
            -(q as i128) - 1
        }
    }
}

/// Saturating sum.
pub fn add(a: i64, b: i64) -> (r: i64)
    ensures
        r == fadd(a as int, b as int),
{
    saturate(a as i128 + b as i128)
}

/// Saturating difference.
pub fn sub(a: i64, b: i64) -> (r: i64)
    ensures
        r == fsub(a as int, b as int),
{
    saturate(a as i128 - b as i128)
}

/// Saturating product, rounded down.
pub fn mul(a: i64, b: i64) -> (r: i64)
    ensures
        r == fmul(a as int, b as int),
{
    proof {
        lemma_wide_product(a as int, b as int);
    }
    let p = a as i128 * b as i128;
    saturate(floor_div(p, SCALE as u128))
}

/// Saturating quotient, rounded down; dividing by zero gives zero.
pub fn div(a: i64, b: i64) -> (r: i64)
    ensures
        r == fdiv(a as int, b as int),
{
    if b == 0 {
        0
    } else if b > 0 {
        proof {
            lemma_wide_product(a as int, SCALE as int);
        }
        let p = a as i128 * SCALE as i128;
        saturate(floor_div(p, b as u128))
    } else {
        proof {
            lemma_wide_product(-a, SCALE as int);
        }
        let p = -(a as i128) * SCALE as i128;
        saturate(floor_div(p, (-(b as i128)) as u128))
    }
}

/// Integer square root by bisection.
fn isqrt_exec(n: u128) -> (r: u128)
    requires
        n < 0x1_0000_0000_0000_0000_0000_0000,
    ensures
        is_root(n as int, r as int),
{
    let mut lo: u128 = 0;
    let mut hi: u128 = 0x1_0000_0000_0000;
    assert(n < hi * hi) by (nonlinear_arith)
        requires
            n < 0x1_0000_0000_0000_0000_0000_0000,
            hi == 0x1_0000_0000_0000,
    ;
    while hi - lo > 1
        invariant
            lo < hi <= 0x1_0000_0000_0000,
            lo * lo <= n,
            n < hi * hi,
        decreases hi - lo,
    {
        let mid = lo + (hi - lo) / 2;
        assert(mid * mid <= 0x1_0000_0000_0000_0000_0000_0000) by (nonlinear_arith)
            requires
                mid <= 0x1_0000_0000_0000,
        ;
        if mid * mid <= n {
            lo = mid;
        } else {
            hi = mid;
        }
    }
    assert(hi == lo + 1);
    lo
}

/// Square root, rounded down; a negative argument gives zero.
pub fn sqrt(a: i64) -> (r: i64)
    ensures
        r == fsqrt(a as int),
{
    if a <= 0 {
        0
    } else {
        proof {
            lemma_wide_product(a as int, SCALE as int);
        }
        let n = a as u128 * SCALE as u128;
        assert(n < 0x1_0000_0000_0000_0000_0000_0000) by (nonlinear_arith)
            requires
                n == a * SCALE,
                0 < a <= 0x7fff_ffff_ffff_ffff,
                SCALE == 1_000_000,
        ;
        let s = isqrt_exec(n);
        proof {
            lemma_isqrt_is(n as int, s as int);
        }
        assert(s <= 0x1_0000_0000_0000) by (nonlinear_arith)
            requires
                s * s <= n,
                n < 0x1_0000_0000_0000_0000_0000_0000,
        ;
        saturate(s as i128)
    }
}

/// Saturating absolute value.
pub fn abs(a: i64) -> (r: i64)
    ensures
        r == fabs(a as int),
{
    if a < 0 {
        saturate(-(a as i128))
    } else {
        a
    }
}

pub fn max(a: i64, b: i64) -> (r: i64)
    ensures
        r == fmax(a as int, b as int),
{
    if a >= b {
        a
    } else {
        b
    }
}

pub fn min(a: i64, b: i64) -> (r: i64)
    ensures
        r == fmin(a as int, b as int),
{
    if a <= b {
        a
    } else {
        b
    }
}

} // verus!
