//! Four-channel colors in fixed point: every channel lives in `[0, SCALE]`
//! (zero to full intensity) and every combination step clamps back into
//! that range before the next stage sees it.

use vstd::prelude::*;
use vstd::arithmetic::div_mod::lemma_div_is_ordered;
use vstd::arithmetic::div_mod::lemma_div_pos_is_pos;
use crate::math::SCALE;
use crate::math::div_floor;
use crate::math::lemma_div_bound_abs;
use crate::math::spec_clamp01;
use crate::math::clamp01;
use crate::vec3::lemma_product_bound;

verus! {

/// An RGBA color; each channel counts `1 / SCALE` of full intensity.
#[derive(Clone, Copy, PartialEq, Eq, Structural, Debug)]
pub struct Color {
    pub r: i64,
    pub g: i64,
    pub b: i64,
    pub a: i64,
}

/// The all-zero (black, fully transparent) color.
pub open spec fn black() -> Color {
    Color { r: 0, g: 0, b: 0, a: 0 }
}

/// One channel scaled by a fraction in `[0, SCALE]`, rounded down.
pub open spec fn spec_channel_scale(c: int, f: int) -> int {
    c * f / (SCALE as int)
}

impl Color {
    /// Every channel inside the color range.
    pub open spec fn wf(self) -> bool {
        0 <= self.r <= SCALE && 0 <= self.g <= SCALE && 0 <= self.b <= SCALE && 0 <= self.a
            <= SCALE
    }

    pub fn new(r: i64, g: i64, b: i64, a: i64) -> (c: Color)
        ensures
            c == (Color { r, g, b, a }),
    {
        Color { r, g, b, a }
    }

    /// Scale every channel by a fraction in `[0, SCALE]`.
    pub fn scale_frac(&self, f: i64) -> (c: Color)
        requires
            self.wf(),
            0 <= f <= SCALE,
        ensures
            c.r == spec_channel_scale(self.r as int, f as int),
            c.g == spec_channel_scale(self.g as int, f as int),
            c.b == spec_channel_scale(self.b as int, f as int),
            c.a == spec_channel_scale(self.a as int, f as int),
            c.wf(),
    {
        Color {
            r: channel_scale(self.r, f),
            g: channel_scale(self.g, f),
            b: channel_scale(self.b, f),
            a: channel_scale(self.a, f),
        }
    }

    /// Add another color and clamp each channel back into range.
    pub fn plus_clamp(&self, other: &Color) -> (c: Color)
        requires
            self.wf(),
            other.wf(),
        ensures
            c.r == spec_clamp01(self.r + other.r),
            c.g == spec_clamp01(self.g + other.g),
            c.b == spec_clamp01(self.b + other.b),
            c.a == spec_clamp01(self.a + other.a),
            c.wf(),
    {
        Color {
            r: clamp01(self.r as i128 + other.r as i128),
            g: clamp01(self.g as i128 + other.g as i128),
            b: clamp01(self.b as i128 + other.b as i128),
            a: clamp01(self.a as i128 + other.a as i128),
        }
    }
}

/// Scaling a channel by a fraction keeps it in the color range.
pub proof fn lemma_channel_scale_bounds(c: int, f: int)
    requires
        0 <= c <= SCALE,
        0 <= f <= SCALE,
    ensures
        0 <= spec_channel_scale(c, f) <= SCALE,
{
    lemma_product_bound(c, f, SCALE as int, SCALE as int);
    lemma_div_bound_abs(c * f, SCALE as int, SCALE as int);
    assert(c * f >= 0) by (nonlinear_arith)
        requires
            c >= 0,
            f >= 0,
    ;
    lemma_div_pos_is_pos(c * f, SCALE as int);
}

/// Scaling is monotone in the fraction, and in the channel.
pub proof fn lemma_channel_scale_monotone(c1: int, f1: int, c2: int, f2: int)
    requires
        0 <= c1 <= c2,
        0 <= f1 <= f2,
    ensures
        spec_channel_scale(c1, f1) <= spec_channel_scale(c2, f2),
{
    assert(c1 * f1 <= c2 * f2) by (nonlinear_arith)
        requires
            0 <= c1 <= c2,
            0 <= f1 <= f2,
    ;
    lemma_div_is_ordered(c1 * f1, c2 * f2, SCALE as int);
}

/// Scale one channel by a fraction in `[0, SCALE]`; the result stays in
/// range without clamping.
pub fn channel_scale(c: i64, f: i64) -> (r: i64)
    requires
        0 <= c <= SCALE,
        0 <= f <= SCALE,
    ensures
        r == spec_channel_scale(c as int, f as int),
        0 <= r <= SCALE,
{
    proof {
        lemma_product_bound(c as int, f as int, SCALE as int, SCALE as int);
        lemma_div_bound_abs(c as int * f as int, SCALE as int, SCALE as int);
        assert(c as int * f as int >= 0) by (nonlinear_arith)
            requires
                c as int >= 0,
                f as int >= 0,
        ;
        lemma_div_pos_is_pos(c as int * f as int, SCALE as int);
    }
    let wide: i128 = (c as i128) * (f as i128);
    div_floor(wide, SCALE as i128) as i64
}

} // verus!
