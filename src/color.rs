//! Colors: three fixed-point channels, nominally in `[0, 1]`, with gamma encoding to bytes.
use crate::fixed::{
    self, clamp, fadd, fmul, fsqrt, is_root, isqrt, lemma_clamp_bounds, lemma_isqrt_is,
    lemma_root_exists, SCALE,
};
use vstd::prelude::*;

verus! {

#[derive(Clone, Copy, Debug, PartialEq, Eq, Structural)]
pub struct Color {
    pub r: i64,
    pub g: i64,
    pub b: i64,
}

/// Binary digits of the fractional part of an exponent that `pow_unit` honours.
pub const FRAC_BITS: u32 = 20;

pub open spec fn rgb(r: int, g: int, b: int) -> Color {
    Color { r: r as i64, g: g as i64, b: b as i64 }
}

pub open spec fn cadd(a: Color, b: Color) -> Color {
    rgb(fadd(a.r as int, b.r as int), fadd(a.g as int, b.g as int), fadd(a.b as int, b.b as int))
}

/// Channel-wise product.
pub open spec fn cmul(a: Color, b: Color) -> Color {
    rgb(fmul(a.r as int, b.r as int), fmul(a.g as int, b.g as int), fmul(a.b as int, b.b as int))
}

pub open spec fn cscale(a: Color, k: int) -> Color {
    rgb(fmul(a.r as int, k), fmul(a.g as int, k), fmul(a.b as int, k))
}

/// A byte channel as a fraction of 255, rounded down.
pub open spec fn unit_of(c: int) -> int {
    (c * SCALE) / 255
}

/// `x` to the natural power `n`, one rounded product at a time.
pub open spec fn ipow(x: int, n: nat) -> int
    decreases n,
{
    if n == 0 {
        SCALE as int
    } else {
        fmul(ipow(x, (n - 1) as nat), x)
    }
}

/// `x` to the power `1 / 2^i`, by `i` square roots.
pub open spec fn root_at(x: int, i: nat) -> int
    decreases i,
{
    if i == 0 {
        x
    } else {
        fsqrt(root_at(x, (i - 1) as nat))
    }
}

/// What remains of the fraction `f / SCALE` after its first `i` binary digits, times `2^i`.
pub open spec fn frac_rem(f: int, i: nat) -> int
    decreases i,
{
    if i == 0 {
        f
    } else {
        let r = 2 * frac_rem(f, (i - 1) as nat);
        if r >= SCALE {
            r - SCALE
        } else {
            r
        }
    }
}

/// Whether binary digit `i` (counting from 1) of the fraction `f / SCALE` is set.
pub open spec fn frac_bit(f: int, i: nat) -> bool {
    i >= 1 && 2 * frac_rem(f, (i - 1) as nat) >= SCALE
}

/// `x` to the power given by the first `i` binary digits of `f / SCALE`.
pub open spec fn frac_pow(x: int, f: int, i: nat) -> int
    decreases i,
{
    if i == 0 {
        SCALE as int
    } else if frac_bit(f, i) {
        fmul(frac_pow(x, f, (i - 1) as nat), root_at(x, i))
    } else {
        frac_pow(x, f, (i - 1) as nat)
    }
}

/// `x ^ e` for `x` in `[0, 1]`: the integer part of `e` by repeated products, its fraction
/// by square roots, one per binary digit. `x ^ e` is 1 for `e <= 0`, and 0 for `x = 0`.
pub open spec fn pow_unit(x: int, e: int) -> int {
    if e <= 0 {
        SCALE as int
    } else if x <= 0 {
        0
    } else {
        fmul(ipow(x, (e / (SCALE as int)) as nat), frac_pow(x, e % (SCALE as int), FRAC_BITS as nat))
    }
}

/// A channel limited to `[0, 1]`.
pub open spec fn unit_clamp(c: int) -> int {
    if c < 0 {
        0
    } else if c > SCALE {
        SCALE as int
    } else {
        c
    }
}

/// The 8-bit value of a channel: `round(clamp(c, 0, 1) ^ gamma * 255)`.
pub open spec fn encode_channel(c: int, gamma: int) -> int {
    (pow_unit(unit_clamp(c), gamma) * 255 + SCALE / 2) / (SCALE as int)
}

/// The three bytes of a color.
pub open spec fn encode_color(c: Color, gamma: int) -> (u8, u8, u8) {
    (
        encode_channel(c.r as int, gamma) as u8,
        encode_channel(c.g as int, gamma) as u8,
        encode_channel(c.b as int, gamma) as u8,
    )
}

proof fn lemma_rgb(x: int, y: int, z: int)
    ensures
        rgb(clamp(x), clamp(y), clamp(z)).r == clamp(x),
        rgb(clamp(x), clamp(y), clamp(z)).g == clamp(y),
        rgb(clamp(x), clamp(y), clamp(z)).b == clamp(z),
{
    lemma_clamp_bounds(x);
    lemma_clamp_bounds(y);
    lemma_clamp_bounds(z);
}

/// Products of values in `[0, 1]` stay in `[0, 1]`.
pub proof fn lemma_fmul_unit(a: int, b: int)
    requires
        0 <= a <= SCALE,
        0 <= b <= SCALE,
    ensures
        0 <= fmul(a, b) <= a,
{
    assert(0 <= a * b <= a * SCALE) by (nonlinear_arith)
        requires
            0 <= a <= SCALE,
            0 <= b <= SCALE,
    ;
    assert(0 <= (a * b) / (SCALE as int) <= a) by (nonlinear_arith)
        requires
            0 <= a * b <= a * SCALE,
            SCALE > 0,
    ;
}

/// Square roots of values in `[0, 1]` stay in `[0, 1]`.
pub proof fn lemma_fsqrt_unit(a: int)
    requires
        0 <= a <= SCALE,
    ensures
        0 <= fsqrt(a) <= SCALE,
        a == SCALE ==> fsqrt(a) == SCALE,
{
    if a > 0 {
        let n = a * SCALE;
        assert(n < (SCALE + 1) * (SCALE + 1)) by (nonlinear_arith)
            requires
                n == a * SCALE,
                0 < a <= SCALE,
        ;
        lemma_root_exists(n, SCALE as int);
        let r = isqrt(n);
        assert(is_root(n, r));
        assert(r <= SCALE) by (nonlinear_arith)
            requires
                0 <= r,
                r * r <= n,
                n < (SCALE + 1) * (SCALE + 1),
        ;
        lemma_clamp_bounds(r);
        if a == SCALE {
            assert(is_root(n, SCALE as int)) by (nonlinear_arith)
                requires
                    n == SCALE * SCALE,
                    SCALE > 0,
            ;
            lemma_isqrt_is(n, SCALE as int);
        }
    }
}

proof fn lemma_ipow_unit(x: int, n: nat)
    requires
        0 <= x <= SCALE,
    ensures
        0 <= ipow(x, n) <= SCALE,
        x == SCALE ==> ipow(x, n) == SCALE,
    decreases n,
{
    if n > 0 {
        lemma_ipow_unit(x, (n - 1) as nat);
        lemma_fmul_unit(ipow(x, (n - 1) as nat), x);
        if x == SCALE {
            assert(fmul(SCALE as int, SCALE as int) == SCALE) by (nonlinear_arith);
        }
    }
}

proof fn lemma_root_at_unit(x: int, i: nat)
    requires
        0 <= x <= SCALE,
    ensures
        0 <= root_at(x, i) <= SCALE,
        x == SCALE ==> root_at(x, i) == SCALE,
    decreases i,
{
    if i > 0 {
        lemma_root_at_unit(x, (i - 1) as nat);
        lemma_fsqrt_unit(root_at(x, (i - 1) as nat));
    }
}

proof fn lemma_frac_pow_unit(x: int, f: int, i: nat)
    requires
        0 <= x <= SCALE,
    ensures
        0 <= frac_pow(x, f, i) <= SCALE,
        x == SCALE ==> frac_pow(x, f, i) == SCALE,
    decreases i,
{
    if i > 0 {
        lemma_frac_pow_unit(x, f, (i - 1) as nat);
        lemma_root_at_unit(x, i);
        lemma_fmul_unit(frac_pow(x, f, (i - 1) as nat), root_at(x, i));
        if x == SCALE {
            assert(fmul(SCALE as int, SCALE as int) == SCALE) by (nonlinear_arith);
        }
    }
}

/// `pow_unit` stays in `[0, 1]`, keeps 1 at 1, and keeps 0 at 0 for a positive exponent.
pub proof fn lemma_pow_unit(x: int, e: int)
    requires
        0 <= x <= SCALE,
    ensures
        0 <= pow_unit(x, e) <= SCALE,
        x == SCALE ==> pow_unit(x, e) == SCALE,
        x == 0 && e > 0 ==> pow_unit(x, e) == 0,
{
    if e > 0 && x > 0 {
        let n = (e / (SCALE as int)) as nat;
        let f = e % (SCALE as int);
        lemma_ipow_unit(x, n);
        lemma_frac_pow_unit(x, f, FRAC_BITS as nat);
        lemma_fmul_unit(ipow(x, n), frac_pow(x, f, FRAC_BITS as nat));
        if x == SCALE {
            assert(fmul(SCALE as int, SCALE as int) == SCALE) by (nonlinear_arith);
        }
    }
}

/// Encoding with any positive gamma sends full intensity to 255 and none to 0.
pub proof fn lemma_encode_extremes(gamma: int)
    requires
        gamma > 0,
    ensures
        encode_channel(SCALE as int, gamma) == 255,
        encode_channel(0, gamma) == 0,
{
    lemma_pow_unit(SCALE as int, gamma);
    lemma_pow_unit(0, gamma);
}

/// `x ^ e` for `x` in `[0, 1]`.
pub fn pow_unit_exec(x: i64, e: i64) -> (r: i64)
    requires
        0 <= x <= SCALE,
    ensures
        r == pow_unit(x as int, e as int),
        0 <= r <= SCALE,
{
    proof {
        lemma_pow_unit(x as int, e as int);
    }
    if e <= 0 {
        return SCALE;
    }
    if x == 0 {
        return 0;
    }
    let n = e / SCALE;
    let f = e % SCALE;
    let mut whole: i64 = SCALE;
    let mut k: i64 = 0;
    while k < n
        invariant
            0 <= k <= n,
            0 < x <= SCALE,
            whole == ipow(x as int, k as nat),
        decreases n - k,
    {
        proof {
            lemma_ipow_unit(x as int, k as nat);
        }
        whole = fixed::mul(whole, x);
        k = k + 1;
    }
    let mut root: i64 = x;
    let mut acc: i64 = SCALE;
    let mut rem: i64 = f;
    let mut i: u32 = 0;
    while i < FRAC_BITS
        invariant
            0 <= i <= FRAC_BITS,
            0 < x <= SCALE,
            0 <= f < SCALE,
            root == root_at(x as int, i as nat),
            acc == frac_pow(x as int, f as int, i as nat),
            rem == frac_rem(f as int, i as nat),
            0 <= rem < SCALE,
        decreases FRAC_BITS - i,
    {
        proof {
            lemma_root_at_unit(x as int, i as nat);
        }
        root = fixed::sqrt(root);
        let twice = 2 * rem;
        if twice >= SCALE {
            acc = fixed::mul(acc, root);
            rem = twice - SCALE;
        } else {
            rem = twice;
        }
        i = i + 1;
    }
    fixed::mul(whole, acc)
}

/// The 8-bit value of one channel under gamma `gamma`.
pub fn encode(c: i64, gamma: i64) -> (r: u8)
    ensures
        r == encode_channel(c as int, gamma as int),
        gamma > 0 && c >= SCALE ==> r == 255,
        gamma > 0 && c <= 0 ==> r == 0,
{
    let x = if c < 0 {
        0
    } else if c > SCALE {
        SCALE
    } else {
        c
    };
    let p = pow_unit_exec(x, gamma);
    proof {
        lemma_pow_unit(x as int, gamma as int);
    }
    let v = (p * 255 + SCALE / 2) / SCALE;
    assert(v <= 255) by (nonlinear_arith)
        requires
            v == (p * 255 + 500_000) / 1_000_000,
            0 <= p <= 1_000_000,
    ;
    v as u8
}

impl Color {
    pub fn new(r: i64, g: i64, b: i64) -> (c: Color)
        ensures
            c == (Color { r, g, b }),
    {
        Color { r, g, b }
    }

    pub fn black() -> (c: Color)
        ensures
            c == rgb(0, 0, 0),
    {
        Color { r: 0, g: 0, b: 0 }
    }

    pub fn white() -> (c: Color)
        ensures
            c == rgb(SCALE as int, SCALE as int, SCALE as int),
    {
        Color { r: SCALE, g: SCALE, b: SCALE }
    }

    /// Each byte channel as a fraction of 255.
    pub fn from_u8(r: u8, g: u8, b: u8) -> (c: Color)
        ensures
            c == rgb(unit_of(r as int), unit_of(g as int), unit_of(b as int)),
    {
        Color {
            r: (r as i64 * SCALE) / 255,
            g: (g as i64 * SCALE) / 255,
            b: (b as i64 * SCALE) / 255,
        }
    }

    pub fn add(self, o: Color) -> (c: Color)
        ensures
            c == cadd(self, o),
    {
        proof {
            lemma_rgb(self.r + o.r, self.g + o.g, self.b + o.b);
        }
        Color { r: fixed::add(self.r, o.r), g: fixed::add(self.g, o.g), b: fixed::add(self.b, o.b) }
    }

    /// Channel-wise product.
    pub fn mul(self, o: Color) -> (c: Color)
        ensures
            c == cmul(self, o),
    {
        proof {
            lemma_rgb(
                (self.r * o.r) / (SCALE as int),
                (self.g * o.g) / (SCALE as int),
                (self.b * o.b) / (SCALE as int),
            );
        }
        Color { r: fixed::mul(self.r, o.r), g: fixed::mul(self.g, o.g), b: fixed::mul(self.b, o.b) }
    }

    pub fn scale(self, k: i64) -> (c: Color)
        ensures
            c == cscale(self, k as int),
    {
        proof {
            lemma_rgb(
                (self.r * k) / (SCALE as int),
                (self.g * k) / (SCALE as int),
                (self.b * k) / (SCALE as int),
            );
        }
        Color { r: fixed::mul(self.r, k), g: fixed::mul(self.g, k), b: fixed::mul(self.b, k) }
    }

    /// The three gamma-encoded bytes.
    pub fn to_bytes(self, gamma: i64) -> (r: (u8, u8, u8))
        ensures
            r == encode_color(self, gamma as int),
    {
        (encode(self.r, gamma), encode(self.g, gamma), encode(self.b, gamma))
    }
}

} // verus!
