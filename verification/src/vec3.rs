//! Three-component vectors in fixed-point coordinates, with the exact
//! integer algebra (difference, sum, dot product, normalization) that the
//! intersection and shading code is specified against.

use vstd::prelude::*;
use crate::math::DIR_BOUND;
use crate::math::SCALE;
use crate::math::WORLD;
use crate::math::div_floor;
use crate::math::isqrt;
use crate::math::lemma_div_bound_abs;
use crate::math::lemma_isqrt_bounds;
use crate::math::spec_isqrt;

verus! {

/// A point or direction; each component counts `1 / SCALE` world units.
#[derive(Clone, Copy, PartialEq, Eq, Structural, Debug)]
pub struct Vec3 {
    pub x: i64,
    pub y: i64,
    pub z: i64,
}

/// Operand limit for `dot` and `normalize`: wide enough for every vector
/// the pipeline forms (directions, differences, unnormalized mirrors).
pub const NORM_LIMIT: i64 = 2_000_000_000_000_000;

/// Exact dot product of two vectors, as a mathematical integer.
pub open spec fn sdot(a: Vec3, b: Vec3) -> int {
    a.x * b.x + a.y * b.y + a.z * b.z
}

/// The all-zero vector.
pub open spec fn zero_vec() -> Vec3 {
    Vec3 { x: 0, y: 0, z: 0 }
}

/// Normalization scales a vector by `SCALE / |v|` (rounding down), so a
/// unit direction has components of magnitude about `SCALE`; the zero
/// vector, which has no direction, stays zero.
pub open spec fn spec_normalize(v: Vec3) -> Vec3 {
    let d = sdot(v, v);
    if d == 0 {
        zero_vec()
    } else {
        let len = spec_isqrt(d);
        Vec3 {
            x: (v.x * SCALE / len) as i64,
            y: (v.y * SCALE / len) as i64,
            z: (v.z * SCALE / len) as i64,
        }
    }
}

impl Vec3 {
    /// Every component small enough to be a position inside the world box.
    pub open spec fn in_world(self) -> bool {
        -WORLD <= self.x <= WORLD && -WORLD <= self.y <= WORLD && -WORLD <= self.z <= WORLD
    }

    /// Every component small enough to be a ray-direction component.
    pub open spec fn bounded_dir(self) -> bool {
        -DIR_BOUND <= self.x <= DIR_BOUND && -DIR_BOUND <= self.y <= DIR_BOUND
            && -DIR_BOUND <= self.z <= DIR_BOUND
    }

    /// Every component within the magnitude `m`.
    pub open spec fn bounded_by(self, m: int) -> bool {
        -m <= self.x <= m && -m <= self.y <= m && -m <= self.z <= m
    }

    pub fn new(x: i64, y: i64, z: i64) -> (r: Vec3)
        ensures
            r == (Vec3 { x, y, z }),
    {
        Vec3 { x, y, z }
    }

    /// Componentwise difference.
    pub fn minus(&self, other: &Vec3) -> (r: Vec3)
        requires
            self.bounded_by(8_000_000_000),
            other.bounded_by(8_000_000_000),
        ensures
            r.x == self.x - other.x,
            r.y == self.y - other.y,
            r.z == self.z - other.z,
    {
        Vec3 { x: self.x - other.x, y: self.y - other.y, z: self.z - other.z }
    }

    /// Componentwise sum.
    pub fn plus(&self, other: &Vec3) -> (r: Vec3)
        requires
            self.bounded_by(8_000_000_000),
            other.bounded_by(8_000_000_000),
        ensures
            r.x == self.x + other.x,
            r.y == self.y + other.y,
            r.z == self.z + other.z,
    {
        Vec3 { x: self.x + other.x, y: self.y + other.y, z: self.z + other.z }
    }

    /// Dot product, computed wide so it cannot overflow.
    pub fn dot(&self, other: &Vec3) -> (r: i128)
        requires
            self.bounded_by(NORM_LIMIT as int),
            other.bounded_by(NORM_LIMIT as int),
        ensures
            r == sdot(*self, *other),
    {
        proof {
            lemma_dot_bound(*self, *other, NORM_LIMIT as int);
            lemma_product_bound(self.x as int, other.x as int, NORM_LIMIT as int, NORM_LIMIT as int);
            lemma_product_bound(self.y as int, other.y as int, NORM_LIMIT as int, NORM_LIMIT as int);
            lemma_product_bound(self.z as int, other.z as int, NORM_LIMIT as int, NORM_LIMIT as int);
        }
        (self.x as i128) * (other.x as i128) + (self.y as i128) * (other.y as i128) + (
        self.z as i128) * (other.z as i128)
    }

    /// Scale to unit length (about `SCALE` raw steps), rounding each
    /// component down; the zero vector is handed back unchanged.
    pub fn normalize(&self) -> (r: Vec3)
        requires
            self.bounded_by(NORM_LIMIT as int),
        ensures
            r == spec_normalize(*self),
            r.bounded_by(SCALE as int),
    {
        let d: i128 = self.dot(self);
        proof {
            lemma_dot_self_nonneg(*self);
        }
        if d == 0 {
            proof {
                lemma_zero_dot_zero_vec(*self);
            }
            Vec3 { x: 0, y: 0, z: 0 }
        } else {
            let len: u128 = isqrt(d as u128);
            proof {
                lemma_isqrt_bounds(d as int);
                lemma_component_le_len(*self, len as int);
                lemma_norm_component_bounds(self.x as int, len as int);
                lemma_norm_component_bounds(self.y as int, len as int);
                lemma_norm_component_bounds(self.z as int, len as int);
            }
            let nx: i128 = div_floor((self.x as i128) * (SCALE as i128), len as i128);
            let ny: i128 = div_floor((self.y as i128) * (SCALE as i128), len as i128);
            let nz: i128 = div_floor((self.z as i128) * (SCALE as i128), len as i128);
            Vec3 { x: nx as i64, y: ny as i64, z: nz as i64 }
        }
    }
}

/// Mirror `d` about the direction `n` (a unit-scale normal): the
/// component of `d` along `n` is flipped, in fixed point and rounded down.
pub open spec fn spec_reflect(d: Vec3, n: Vec3) -> Vec3 {
    let ds = sdot(d, n);
    Vec3 {
        x: (d.x - (2 * ds * n.x) / (SCALE * SCALE)) as i64,
        y: (d.y - (2 * ds * n.y) / (SCALE * SCALE)) as i64,
        z: (d.z - (2 * ds * n.z) / (SCALE * SCALE)) as i64,
    }
}

/// Mirror a direction about a unit-scale normal.
pub fn reflect(d: &Vec3, n: &Vec3) -> (r: Vec3)
    requires
        d.bounded_by(DIR_BOUND as int),
        n.bounded_by(SCALE as int),
    ensures
        r == spec_reflect(*d, *n),
        r.bounded_by(7_000_000_000_000),
{
    let ds: i128 = d.dot(n);
    proof {
        lemma_dot_bound(*d, *n, DIR_BOUND as int);
        lemma_product_bound(2 * ds as int, n.x as int, 6_000_000_000_000_000_000, SCALE as int);
        lemma_product_bound(2 * ds as int, n.y as int, 6_000_000_000_000_000_000, SCALE as int);
        lemma_product_bound(2 * ds as int, n.z as int, 6_000_000_000_000_000_000, SCALE as int);
        lemma_div_bound_abs(
            2 * ds as int * n.x as int,
            (SCALE * SCALE) as int,
            6_000_000_000_000,
        );
        lemma_div_bound_abs(
            2 * ds as int * n.y as int,
            (SCALE * SCALE) as int,
            6_000_000_000_000,
        );
        lemma_div_bound_abs(
            2 * ds as int * n.z as int,
            (SCALE * SCALE) as int,
            6_000_000_000_000,
        );
    }
    let s2: i128 = (SCALE as i128) * (SCALE as i128);
    let qx: i128 = div_floor(2 * ds * (n.x as i128), s2);
    let qy: i128 = div_floor(2 * ds * (n.y as i128), s2);
    let qz: i128 = div_floor(2 * ds * (n.z as i128), s2);
    Vec3 {
        x: d.x - (qx as i64),
        y: d.y - (qy as i64),
        z: d.z - (qz as i64),
    }
}

/// Two bounded factors give a bounded product.
pub proof fn lemma_product_bound(a: int, b: int, ma: int, mb: int)
    requires
        ma >= 0,
        mb >= 0,
        -ma <= a <= ma,
        -mb <= b <= mb,
    ensures
        -ma * mb <= a * b <= ma * mb,
{
    assert(-ma * mb <= a * b <= ma * mb) by (nonlinear_arith)
        requires
            ma >= 0,
            mb >= 0,
            -ma <= a <= ma,
            -mb <= b <= mb,
    ;
}

/// Componentwise bounds give a cubic bound on the dot product.
pub proof fn lemma_dot_bound(a: Vec3, b: Vec3, m: int)
    requires
        m >= 0,
        a.bounded_by(m),
        b.bounded_by(m),
    ensures
        -3 * m * m <= sdot(a, b) <= 3 * m * m,
{
    assert(-3 * m * m <= sdot(a, b) <= 3 * m * m) by (nonlinear_arith)
        requires
            m >= 0,
            -m <= a.x <= m && -m <= a.y <= m && -m <= a.z <= m,
            -m <= b.x <= m && -m <= b.y <= m && -m <= b.z <= m,
            sdot(a, b) == a.x * b.x + a.y * b.y + a.z * b.z,
    ;
}

/// A vector dotted with itself is a sum of squares, hence non-negative.
pub proof fn lemma_dot_self_nonneg(v: Vec3)
    ensures
        sdot(v, v) >= 0,
{
    assert(sdot(v, v) >= 0) by (nonlinear_arith)
        requires
            sdot(v, v) == v.x * v.x + v.y * v.y + v.z * v.z,
    ;
}

/// Only the zero vector has a zero dot product with itself.
pub proof fn lemma_zero_dot_zero_vec(v: Vec3)
    requires
        sdot(v, v) == 0,
    ensures
        v == zero_vec(),
{
    assert(v.x == 0 && v.y == 0 && v.z == 0) by (nonlinear_arith)
        requires
            v.x * v.x + v.y * v.y + v.z * v.z == 0,
    ;
}

/// Each component of a vector is bounded in magnitude by the floor of the
/// vector's length.
proof fn lemma_component_le_len(v: Vec3, len: int)
    requires
        len >= 0,
        len * len <= sdot(v, v),
        sdot(v, v) < (len + 1) * (len + 1),
    ensures
        -len <= v.x <= len,
        -len <= v.y <= len,
        -len <= v.z <= len,
{
    assert(-len <= v.x <= len && -len <= v.y <= len && -len <= v.z <= len) by (nonlinear_arith)
        requires
            len >= 0,
            sdot(v, v) < (len + 1) * (len + 1),
            sdot(v, v) == v.x * v.x + v.y * v.y + v.z * v.z,
    ;
}

/// A component no longer than the vector's length normalizes to at most
/// `SCALE` in magnitude.
proof fn lemma_norm_component_bounds(c: int, len: int)
    requires
        len > 0,
        -len <= c <= len,
    ensures
        -SCALE <= c * SCALE / len <= SCALE,
{
    assert(-len * SCALE <= c * SCALE <= len * SCALE) by (nonlinear_arith)
        requires
            len > 0,
            -len <= c <= len,
            SCALE == 1_000_000,
    ;
    lemma_div_bound_abs(c * SCALE, len, SCALE as int);
}

} // verus!
