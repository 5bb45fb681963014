//! Three-component vectors in fixed-point coordinates: the exact dot product
//! and difference the intersection math is written over, and fixed-point
//! normalization.

use vstd::prelude::*;
use crate::math::COORD_MAX;
use crate::math::SCALE;
use crate::math::div_nonneg;
use crate::math::isqrt;
use crate::math::isqrt_spec;
use crate::math::lemma_mul_bound;
use crate::math::lemma_sqrt_compare;

verus! {

/// Largest component magnitude `Vec3::dot` accepts; keeps the sum of products
/// inside `i128`.
pub const DOT_MAX: i128 = 3000000000000000;

/// A point or direction in space; each component counts fixed-point units of
/// `crate::math::SCALE` per world unit.
#[derive(Clone, Copy, PartialEq, Eq, Structural, Debug)]
pub struct Vec3 {
    pub x: i128,
    pub y: i128,
    pub z: i128,
}

/// Every component within the coordinate budget.
pub open spec fn in_range(v: Vec3) -> bool {
    &&& -COORD_MAX <= v.x <= COORD_MAX
    &&& -COORD_MAX <= v.y <= COORD_MAX
    &&& -COORD_MAX <= v.z <= COORD_MAX
}

/// Mathematical dot product over raw components.
pub open spec fn dot3(ax: int, ay: int, az: int, bx: int, by: int, bz: int) -> int {
    ax * bx + ay * by + az * bz
}

/// Mathematical dot product of two vectors.
pub open spec fn dot(a: Vec3, b: Vec3) -> int {
    dot3(a.x as int, a.y as int, a.z as int, b.x as int, b.y as int, b.z as int)
}

/// Mathematical component-wise difference.
pub open spec fn diff(a: Vec3, b: Vec3) -> (int, int, int) {
    (a.x - b.x, a.y - b.y, a.z - b.z)
}

/// A vector's dot product with itself is a sum of squares.
pub proof fn lemma_dot_self_nonneg(x: int, y: int, z: int)
    ensures
        dot3(x, y, z, x, y, z) >= 0,
        x * x <= dot3(x, y, z, x, y, z),
        y * y <= dot3(x, y, z, x, y, z),
        z * z <= dot3(x, y, z, x, y, z),
{
    assert(x * x >= 0 && y * y >= 0 && z * z >= 0) by (nonlinear_arith);
}

impl Vec3 {
    /// Builds a vector; range checks live at the scene boundary.
    pub fn new(x: i128, y: i128, z: i128) -> (v: Vec3)
        ensures
            v == (Vec3 { x, y, z }),
    {
        Vec3 { x, y, z }
    }

    /// Component-wise difference of two in-range vectors.
    pub fn sub(&self, other: &Vec3) -> (r: Vec3)
        requires
            in_range(*self),
            in_range(*other),
        ensures
            (r.x as int, r.y as int, r.z as int) == diff(*self, *other),
            -2 * COORD_MAX <= r.x <= 2 * COORD_MAX,
            -2 * COORD_MAX <= r.y <= 2 * COORD_MAX,
            -2 * COORD_MAX <= r.z <= 2 * COORD_MAX,
    {
        Vec3 { x: self.x - other.x, y: self.y - other.y, z: self.z - other.z }
    }

    /// Exact dot product; the bound argument caps both inputs' components so
    /// the products cannot overflow.
    pub fn dot(&self, other: &Vec3, bound: i128) -> (r: i128)
        requires
            0 < bound <= DOT_MAX,
            -bound <= self.x <= bound,
            -bound <= self.y <= bound,
            -bound <= self.z <= bound,
            -bound <= other.x <= bound,
            -bound <= other.y <= bound,
            -bound <= other.z <= bound,
        ensures
            r == dot(*self, *other),
            -(3 * ((bound as int) * (bound as int))) <= r <= 3 * ((bound as int) * (bound as int)),
    {
        proof {
            lemma_mul_bound(self.x as int, other.x as int, bound as int, bound as int);
            lemma_mul_bound(self.y as int, other.y as int, bound as int, bound as int);
            lemma_mul_bound(self.z as int, other.z as int, bound as int, bound as int);
            lemma_mul_bound(bound as int, bound as int, DOT_MAX as int, DOT_MAX as int);
            assert((DOT_MAX as int) * (DOT_MAX as int)
                == 9000000000000000000000000000000int) by (nonlinear_arith);
        }
        self.x * other.x + self.y * other.y + self.z * other.z
    }
}

/// One component of a normalized vector, in fixed-point units: the component
/// scaled by `SCALE` and divided by the vector's length (the floor square
/// root of its dot product with itself). A zero-length vector normalizes to
/// zero.
pub open spec fn unit_component(c: int, len: int) -> int {
    if len <= 0 {
        0
    } else if c >= 0 {
        c * SCALE / len
    } else {
        -((-c) * SCALE / len)
    }
}

/// Fixed-point normalization of a vector given by raw components.
pub open spec fn unit3(x: int, y: int, z: int) -> (int, int, int) {
    let len = isqrt_spec(dot3(x, y, z, x, y, z));
    (unit_component(x, len), unit_component(y, len), unit_component(z, len))
}

/// One normalized component: `|c| * SCALE / len` with the sign of `c`.
fn scaled_ratio(c: i128, len: i128) -> (r: i128)
    requires
        0 < len <= 6000000000000000,
        -len <= c <= len,
    ensures
        r == unit_component(c as int, len as int),
        -SCALE <= r <= SCALE,
{
    proof {
        lemma_mul_bound(c as int, SCALE as int, 6000000000000000int, SCALE as int);
        vstd::arithmetic::div_mod::lemma_div_multiples_vanish(SCALE as int, len as int);
    }
    if c >= 0 {
        proof {
            vstd::arithmetic::mul::lemma_mul_inequality(c as int, len as int, SCALE as int);
            vstd::arithmetic::div_mod::lemma_div_is_ordered(
                c as int * SCALE as int,
                len as int * SCALE as int,
                len as int,
            );
        }
        div_nonneg(c * SCALE, len)
    } else {
        proof {
            vstd::arithmetic::mul::lemma_mul_inequality(-c as int, len as int, SCALE as int);
            vstd::arithmetic::div_mod::lemma_div_is_ordered(
                (-c) as int * SCALE as int,
                len as int * SCALE as int,
                len as int,
            );
        }
        let m = div_nonneg((-c) * SCALE, len);
        -m
    }
}

/// Fixed-point normalization: each component of the result is the input
/// component scaled by `SCALE` and divided by the vector's length, so a unit
/// vector's components lie in `[-SCALE, SCALE]`. The zero vector comes back
/// unchanged.
pub fn normalize(v: &Vec3, bound: i128) -> (u: Vec3)
    requires
        0 < bound <= DOT_MAX,
        -bound <= v.x <= bound,
        -bound <= v.y <= bound,
        -bound <= v.z <= bound,
    ensures
        (u.x as int, u.y as int, u.z as int) == unit3(v.x as int, v.y as int, v.z as int),
        -SCALE <= u.x <= SCALE,
        -SCALE <= u.y <= SCALE,
        -SCALE <= u.z <= SCALE,
{
    proof {
        lemma_dot_self_nonneg(v.x as int, v.y as int, v.z as int);
    }
    let m2 = v.dot(v, bound);
    let len = isqrt(m2);
    if len == 0 {
        Vec3 { x: 0, y: 0, z: 0 }
    } else {
        proof {
            lemma_mul_bound(bound as int, bound as int, DOT_MAX as int, DOT_MAX as int);
            assert((DOT_MAX as int) * (DOT_MAX as int)
                == 9000000000000000000000000000000int) by (nonlinear_arith);
            assert(6000000000000000int * 6000000000000000int
                == 36000000000000000000000000000000int) by (nonlinear_arith);
            lemma_sqrt_compare(len as int, 6000000000000000int);
            assert(-len <= v.x <= len && -len <= v.y <= len && -len <= v.z <= len)
                by (nonlinear_arith)
                requires
                    v.x * v.x <= m2,
                    v.y * v.y <= m2,
                    v.z * v.z <= m2,
                    m2 < (len + 1) * (len + 1),
                    0 <= len,
            ;
        }
        let ux = scaled_ratio(v.x, len);
        let uy = scaled_ratio(v.y, len);
        let uz = scaled_ratio(v.z, len);
        Vec3 { x: ux, y: uy, z: uz }
    }
}

} // verus!
