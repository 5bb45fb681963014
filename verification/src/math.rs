//! Fixed-point scalar arithmetic: the scale constant, truncating division on
//! non-negative operands, an integer square root, and the small arithmetic
//! lemmas the geometry proofs lean on.

use vstd::prelude::*;

verus! {

/// Number of fixed-point units per world unit: a coordinate of `SCALE`
/// represents the real value 1.0.
pub const SCALE: i128 = 10000;

/// Largest magnitude a scene coordinate (or radius) may have, in fixed-point
/// units. Keeps every intermediate of the intersection math inside `i128`.
pub const COORD_MAX: i128 = 16777216;

/// Largest intersection parameter `t` the tracer can report, in fixed-point
/// units: `8 * SCALE * COORD_MAX`.
pub const T_MAX: i128 = 1342177280000;

/// Truncating division of a non-negative value by a positive value. On these
/// operands Rust's `/` and the mathematical floor division agree.
pub fn div_nonneg(a: i128, b: i128) -> (r: i128)
    requires
        0 <= a,
        0 < b,
    ensures
        r == a as int / b as int,
        0 <= r <= a,
{
    let q: u128 = (a as u128) / (b as u128);
    proof {
        assert(a as u128 == a as int);
        assert(b as u128 == b as int);
        vstd::arithmetic::div_mod::lemma_div_pos_is_pos(a as int, b as int);
        vstd::arithmetic::div_mod::lemma_div_nonincreasing(a as int, b as int);
    }
    q as i128
}

/// Floor of the square root, as a recursive specification.
pub open spec fn isqrt_spec(n: int) -> int
    decreases n,
{
    if n < 1 {
        0
    } else {
        let r = isqrt_spec(n - 1);
        if (r + 1) * (r + 1) <= n {
            r + 1
        } else {
            r
        }
    }
}

/// `isqrt_spec(n)` really is the floor of the square root of `n`.
pub proof fn lemma_isqrt_bounds(n: int)
    requires
        0 <= n,
    ensures
        0 <= isqrt_spec(n),
        isqrt_spec(n) * isqrt_spec(n) <= n,
        n < (isqrt_spec(n) + 1) * (isqrt_spec(n) + 1),
    decreases n,
{
    if n == 0 {
        assert(isqrt_spec(0) == 0);
    } else {
        lemma_isqrt_bounds(n - 1);
        let r = isqrt_spec(n - 1);
        if (r + 1) * (r + 1) <= n {
            assert((r + 2) * (r + 2) > n) by (nonlinear_arith)
                requires
                    n - 1 < (r + 1) * (r + 1),
                    0 <= r,
            ;
        }
    }
}

/// The floor square root is the only integer whose square brackets `n`.
pub proof fn lemma_isqrt_unique(n: int, r: int)
    requires
        0 <= n,
        0 <= r,
        r * r <= n,
        n < (r + 1) * (r + 1),
    ensures
        r == isqrt_spec(n),
{
    lemma_isqrt_bounds(n);
    let s = isqrt_spec(n);
    if r < s {
        assert((r + 1) * (r + 1) <= s * s) by (nonlinear_arith)
            requires
                0 <= r,
                r + 1 <= s,
            ;
    }
    if s < r {
        assert((s + 1) * (s + 1) <= r * r) by (nonlinear_arith)
            requires
                0 <= s,
                s + 1 <= r,
            ;
    }
}

/// Binary search for the floor of the square root of a non-negative value.
pub fn isqrt(n: i128) -> (r: i128)
    requires
        0 <= n,
    ensures
        0 <= r,
        r * r <= n < (r + 1) * (r + 1),
        r == isqrt_spec(n as int),
{
    let un: u128 = n as u128;
    let mut lo: u128 = 0;
    let mut hi: u128 = 0xffff_ffff_ffff_ffff;
    proof {
        assert((hi + 1) * (hi + 1) > un) by (nonlinear_arith)
            requires
                hi == 0xffff_ffff_ffff_ffffu128,
                un <= u128::MAX,
            ;
    }
    while lo < hi
        invariant
            0 <= lo <= hi <= 0xffff_ffff_ffff_ffffu128,
            lo * lo <= un,
            un < (hi + 1) * (hi + 1),
            un == n,
        decreases hi - lo,
    {
        let mid: u128 = lo + (hi - lo + 1) / 2;
        proof {
            assert(lo < mid <= hi);
            assert(mid * mid <= 0xffff_ffff_ffff_ffffu128 * 0xffff_ffff_ffff_ffffu128)
                by (nonlinear_arith)
                requires
                    0 <= mid <= 0xffff_ffff_ffff_ffffu128,
            ;
        }
        if mid * mid <= un {
            lo = mid;
        } else {
            hi = mid - 1;
        }
    }
    let r: i128 = lo as i128;
    proof {
        assert(r == lo);
        lemma_isqrt_unique(n as int, r as int);
    }
    r
}

/// Bound on a product from bounds on its factors.
pub proof fn lemma_mul_bound(x: int, y: int, bx: int, by: int)
    requires
        -bx <= x <= bx,
        -by <= y <= by,
        0 <= bx,
        0 <= by,
    ensures
        -(bx * by) <= x * y <= bx * by,
{
    assert(-(bx * by) <= x * y <= bx * by) by (nonlinear_arith)
        requires
            -bx <= x <= bx,
            -by <= y <= by,
            0 <= bx,
            0 <= by,
    ;
}

/// Comparing non-negative numbers is the same as comparing their squares.
pub proof fn lemma_sqrt_compare(x: int, y: int)
    requires
        0 <= x,
        0 <= y,
        x * x <= y * y,
    ensures
        x <= y,
{
    if y < x {
        assert(y * y < x * x) by (nonlinear_arith)
            requires
                0 <= y < x,
        ;
    }
}

} // verus!
