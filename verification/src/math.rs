//! Fixed-point scalar arithmetic: the scale factor, world bounds, floor
//! division, integer square root, clamping and fractional powers.

use vstd::prelude::*;
use vstd::arithmetic::div_mod::lemma_fundamental_div_mod;
use vstd::arithmetic::div_mod::lemma_mod_bound;

verus! {

/// Number of raw integer steps that make up one world unit: all lengths,
/// colors and coefficients count in units of `1 / SCALE`.
pub const SCALE: i64 = 1_000_000;

/// Largest magnitude a position coordinate may take (500 world units).
/// Keeping every position inside this box keeps every intermediate product
/// of the intersection algebra inside `i128`.
pub const WORLD: i64 = 500_000_000;

/// Largest magnitude a ray-direction component may take (two world widths,
/// enough for a direction that spans the whole world box).
pub const DIR_BOUND: i64 = 1_000_000_000;

/// Lower bound of the accepted shadow-ray parameter interval
/// (`1e-4` of the way to the light), guarding against self-intersection.
pub const EPS_T: i64 = 100;

/// Offset along the surface normal (in raw steps of a unit normal) used when
/// a secondary ray leaves a surface.
pub const SURF_EPS: i64 = 100;

/// Cap on the accepted camera-ray parameter: hits further out are treated
/// as misses so the parameter always fits an `i64`.
pub const T_MAX: i64 = 1_000_000_000_000_000;

/// Near-parallel threshold on the raw dot product of a plane normal with
/// a ray direction; for unit-scale vectors this is an alignment of `0.001`.
pub const PARALLEL_EPS: i64 = 1_000_000_000;

/// Hard cap on the recursion depth a reflective material may ask for.
pub const DEPTH_CAP: usize = 64;

/// Magnitude limit on the operands of `div_floor`; generous enough for every
/// product formed by the intersection algebra.
pub const DIV_LIMIT: i128 = 85_070_591_730_234_615_865_843_651_857_942_052_864;

/// Mathematical floor of `x` clamped into the color range `[0, SCALE]`.
pub open spec fn spec_clamp01(x: int) -> int {
    if x < 0 {
        0
    } else if x > SCALE {
        SCALE as int
    } else {
        x
    }
}

/// Clamp a raw channel value into the color range `[0, SCALE]`.
pub fn clamp01(x: i128) -> (r: i64)
    ensures
        r == spec_clamp01(x as int),
{
    if x < 0 {
        0
    } else if x > SCALE as i128 {
        SCALE
    } else {
        x as i64
    }
}

/// The quotient `q` with `q*b <= a < (q+1)*b` is the Euclidean quotient
/// for a positive divisor.
pub proof fn lemma_div_unique(a: int, b: int, q: int)
    requires
        b > 0,
        q * b <= a,
        a < (q + 1) * b,
    ensures
        a / b == q,
{
    lemma_fundamental_div_mod(a, b);
    lemma_mod_bound(a, b);
    assert(a / b == q) by (nonlinear_arith)
        requires
            b > 0,
            q * b <= a,
            a < (q + 1) * b,
            a == b * (a / b) + a % b,
            0 <= a % b < b,
    ;
}

/// Floor division of `a` by a positive `b`, agreeing with the mathematical
/// (Euclidean) quotient also for negative dividends.
pub fn div_floor(a: i128, b: i128) -> (r: i128)
    requires
        0 < b < DIV_LIMIT,
        -DIV_LIMIT < a < DIV_LIMIT,
    ensures
        r == a as int / b as int,
{
    let bu: u128 = b as u128;
    if a >= 0 {
        let q: u128 = (a as u128) / bu;
        q as i128
    } else {
        let na: u128 = (-a) as u128;
        let m: u128 = na + bu - 1;
        let q: u128 = m / bu;
        proof {
            let bi = b as int;
            let nai = na as int;
            let qi = q as int;
            assert(bi * qi <= nai + bi - 1 < bi * qi + bi) by {
                lemma_fundamental_div_mod(nai + bi - 1, bi);
                lemma_mod_bound(nai + bi - 1, bi);
            }
            assert((-qi) * bi <= a as int && (a as int) < (-qi + 1) * bi) by (nonlinear_arith)
                requires
                    bi > 0,
                    bi * qi <= nai + bi - 1 < bi * qi + bi,
                    a as int == -nai,
            ;
            lemma_div_unique(a as int, bi, -qi);
        }
        -(q as i128)
    }
}

/// A dividend between `-d*s` and `d*s` has its floor quotient between
/// `-s` and `s`.
pub proof fn lemma_div_bound_abs(x: int, d: int, s: int)
    requires
        d > 0,
        s >= 0,
        -d * s <= x <= d * s,
    ensures
        -s <= x / d <= s,
{
    lemma_fundamental_div_mod(x, d);
    lemma_mod_bound(x, d);
    assert(-s <= x / d <= s) by (nonlinear_arith)
        requires
            d > 0,
            s >= 0,
            -d * s <= x <= d * s,
            x == d * (x / d) + x % d,
            0 <= x % d < d,
    ;
}

/// Dividing by a positive integer cannot grow the dividend's magnitude.
pub proof fn lemma_div_quotient_bound(x: int, d: int, m: int)
    requires
        d >= 1,
        m >= 0,
        -m <= x <= m,
    ensures
        -m <= x / d <= m,
{
    assert(-d * m <= x <= d * m) by (nonlinear_arith)
        requires
            d >= 1,
            m >= 0,
            -m <= x <= m,
    ;
    lemma_div_bound_abs(x, d, m);
}

/// Floor of the square root, defined by counting up.
pub open spec fn spec_isqrt(n: int) -> int
    decreases n,
{
    if n <= 0 {
        0
    } else {
        let p = spec_isqrt(n - 1);
        if (p + 1) * (p + 1) <= n {
            p + 1
        } else {
            p
        }
    }
}

/// `spec_isqrt(n)` really is the floor of the square root of `n`.
pub proof fn lemma_isqrt_bounds(n: int)
    requires
        n >= 0,
    ensures
        0 <= spec_isqrt(n),
        spec_isqrt(n) * spec_isqrt(n) <= n,
        n < (spec_isqrt(n) + 1) * (spec_isqrt(n) + 1),
    decreases n,
{
    if n == 0 {
    } else {
        lemma_isqrt_bounds(n - 1);
        let p = spec_isqrt(n - 1);
        if (p + 1) * (p + 1) <= n {
            assert(n < (p + 2) * (p + 2)) by (nonlinear_arith)
                requires
                    p >= 0,
                    n - 1 < (p + 1) * (p + 1),
            ;
        }
    }
}

/// Any `r` with `r*r <= n < (r+1)*(r+1)` equals `spec_isqrt(n)`.
pub proof fn lemma_isqrt_unique(n: int, r: int)
    requires
        n >= 0,
        r >= 0,
        r * r <= n,
        n < (r + 1) * (r + 1),
    ensures
        r == spec_isqrt(n),
{
    lemma_isqrt_bounds(n);
    let s = spec_isqrt(n);
    assert(r == s) by (nonlinear_arith)
        requires
            r >= 0,
            s >= 0,
            r * r <= n,
            n < (r + 1) * (r + 1),
            s * s <= n,
            n < (s + 1) * (s + 1),
    ;
}

/// Floor of the square root of `n`, by binary search on the answer.
pub fn isqrt(n: u128) -> (r: u128)
    ensures
        r == spec_isqrt(n as int),
        r * r <= n,
        r < 18_446_744_073_709_551_616,
{
    let mut lo: u128 = 0;
    let mut hi: u128 = 18_446_744_073_709_551_616;
    proof {
        assert((hi as int) * (hi as int) > n as int) by (nonlinear_arith)
            requires
                hi as int == 18_446_744_073_709_551_616,
                n as int <= 340_282_366_920_938_463_463_374_607_431_768_211_455,
        ;
    }
    while hi - lo > 1
        invariant
            lo < hi <= 18_446_744_073_709_551_616,
            lo * lo <= n,
            (hi as int) * (hi as int) > n as int,
        decreases hi - lo,
    {
        let mid: u128 = lo + (hi - lo) / 2;
        proof {
            assert((mid as int) * (mid as int) < 340_282_366_920_938_463_463_374_607_431_768_211_455)
                by (nonlinear_arith)
                requires
                    0 <= mid as int <= 18_446_744_073_709_551_615,
            ;
        }
        if mid * mid <= n {
            lo = mid;
        } else {
            hi = mid;
        }
    }
    proof {
        lemma_isqrt_unique(n as int, lo as int);
    }
    lo
}

/// `base` to the power `e`, both in fixed point: multiply `e` times and
/// floor back down to scale after each step.
pub open spec fn spec_pow_frac(base: int, e: nat) -> int
    decreases e,
{
    if e == 0 {
        SCALE as int
    } else {
        spec_pow_frac(base, (e - 1) as nat) * base / (SCALE as int)
    }
}

/// A fractional base keeps fractional powers inside `[0, SCALE]`.
pub proof fn lemma_pow_frac_bounds(base: int, e: nat)
    requires
        0 <= base <= SCALE,
    ensures
        0 <= spec_pow_frac(base, e) <= SCALE,
    decreases e,
{
    if e > 0 {
        lemma_pow_frac_bounds(base, (e - 1) as nat);
        let p = spec_pow_frac(base, (e - 1) as nat);
        assert(0 <= p * base / (SCALE as int) <= SCALE) by (nonlinear_arith)
            requires
                0 <= p <= SCALE,
                0 <= base <= SCALE,
                SCALE == 1_000_000,
        ;
    }
}

/// Raise a fixed-point fraction to an integer power.
pub fn pow_frac(base: i64, e: u32) -> (r: i64)
    requires
        0 <= base <= SCALE,
    ensures
        r == spec_pow_frac(base as int, e as nat),
        0 <= r <= SCALE,
{
    let mut result: i64 = SCALE;
    let mut i: u32 = 0;
    proof {
        lemma_pow_frac_bounds(base as int, 0nat);
    }
    while i < e
        invariant
            0 <= i <= e,
            0 <= base <= SCALE,
            result == spec_pow_frac(base as int, i as nat),
            0 <= result <= SCALE,
        decreases e - i,
    {
        proof {
            assert(0 <= (result as int) * (base as int) <= 1_000_000_000_000) by (nonlinear_arith)
                requires
                    0 <= result as int <= 1_000_000,
                    0 <= base as int <= 1_000_000,
            ;
        }
        let wide: i128 = (result as i128) * (base as i128);
        let next: i128 = div_floor(wide, SCALE as i128);
        proof {
            lemma_pow_frac_bounds(base as int, (i + 1) as nat);
        }
        result = next as i64;
        i = i + 1;
    }
    result
}

} // verus!
