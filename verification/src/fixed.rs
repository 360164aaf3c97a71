//! Fixed-point arithmetic: scaling, truncating division and integer square
//! root, with the spec-level functions that the motion model is written in.
//!
//! A quantity is a signed count of ticks, `SCALE` ticks to one unit. Products
//! of two quantities are computed in `i128` and brought back to ticks by a
//! truncating division by `SCALE` (rounding towards zero, as Rust's `/`
//! does), so scaled multiplication is symmetric in the sign of its operands.

use vstd::arithmetic::div_mod::{
    lemma_div_is_ordered, lemma_div_multiples_vanish, lemma_div_nonincreasing,
    lemma_div_pos_is_pos,
};
use vstd::prelude::*;

verus! {

/// Number of fixed-point ticks in one unit (metre, second, kilogram, ...).
pub const SCALE: i64 = 1_000_000;

/// Greatest magnitude, in ticks, that positions, velocities, accelerations,
/// times and physical parameters may take. Two billion ticks are two
/// thousand units, ample for a thrown projectile, and small enough that one
/// integration step stays far away from the ends of `i128`.
pub const LIMIT: i64 = 2_000_000_000;

/// Truncating division: the quotient of `a` by `b` rounded towards zero,
/// which is what Rust's `/` computes on signed integers. `b` is expected to
/// be positive.
pub open spec fn tdiv(a: int, b: int) -> int {
    if a >= 0 {
        a / b
    } else {
        -((-a) / b)
    }
}

/// A product of two tick counts, brought back to ticks.
pub open spec fn scale_down(a: int) -> int {
    tdiv(a, SCALE as int)
}

/// Half of a tick count, rounded towards zero.
pub open spec fn halve(a: int) -> int {
    tdiv(a, 2)
}

/// Truncating division by a positive divisor is monotone in the dividend.
pub proof fn lemma_tdiv_monotone(a1: int, a2: int, b: int)
    requires
        1 <= b,
        a1 <= a2,
    ensures
        tdiv(a1, b) <= tdiv(a2, b),
{
    if a1 >= 0 {
        lemma_div_is_ordered(a1, a2, b);
    } else if a2 >= 0 {
        lemma_div_pos_is_pos(-a1, b);
        lemma_div_pos_is_pos(a2, b);
    } else {
        lemma_div_is_ordered(-a2, -a1, b);
    }
}

/// A non-negative dividend gives a non-negative quotient, no larger than
/// the dividend.
pub proof fn lemma_tdiv_nonneg(a: int, b: int)
    requires
        1 <= b,
        0 <= a,
    ensures
        0 <= tdiv(a, b) <= a,
{
    lemma_div_pos_is_pos(a, b);
    lemma_div_nonincreasing(a, b);
}

/// A dividend bounded by `m` times the divisor gives a quotient bounded by
/// `m`.
pub proof fn lemma_tdiv_quotient_bound(a: int, b: int, m: int)
    requires
        1 <= b,
        0 <= m,
        -(m * b) <= a <= m * b,
    ensures
        -m <= tdiv(a, b) <= m,
{
    lemma_div_multiples_vanish(m, b);
    assert(m * b == b * m) by (nonlinear_arith);
    if a >= 0 {
        lemma_div_is_ordered(a, m * b, b);
        lemma_div_pos_is_pos(a, b);
    } else {
        lemma_div_is_ordered(-a, m * b, b);
        lemma_div_pos_is_pos(-a, b);
    }
}

/// A whole multiple of the divisor divides without rounding.
pub proof fn lemma_tdiv_exact(m: int, b: int)
    requires
        1 <= b,
    ensures
        tdiv(m * b, b) == m,
{
    lemma_div_multiples_vanish(m, b);
    assert(m * b == b * m) by (nonlinear_arith);
    if m * b < 0 {
        assert(-(m * b) == (-m) * b) by (nonlinear_arith);
        lemma_div_multiples_vanish(-m, b);
        assert((-m) * b == b * (-m)) by (nonlinear_arith);
    }
}

/// A zero dividend gives a zero quotient.
pub proof fn lemma_tdiv_zero(b: int)
    requires
        1 <= b,
    ensures
        tdiv(0, b) == 0,
{
    lemma_div_pos_is_pos(0, b);
    lemma_div_nonincreasing(0, b);
}

/// Truncating division by `SCALE`, exact against `scale_down`.
pub fn div_scale(a: i128) -> (r: i128)
    ensures
        r == scale_down(a as int),
{
    proof {
        if a >= 0 {
            lemma_div_pos_is_pos(a as int, SCALE as int);
            lemma_div_nonincreasing(a as int, SCALE as int);
        } else {
            lemma_div_pos_is_pos(-(a as int), SCALE as int);
            lemma_div_nonincreasing(-(a as int), SCALE as int);
        }
    }
    a / (SCALE as i128)
}

/// Truncating division by two, exact against `halve`.
pub fn div_half(a: i128) -> (r: i128)
    ensures
        r == halve(a as int),
{
    proof {
        if a >= 0 {
            lemma_div_pos_is_pos(a as int, 2);
            lemma_div_nonincreasing(a as int, 2);
        } else {
            lemma_div_pos_is_pos(-(a as int), 2);
            lemma_div_nonincreasing(-(a as int), 2);
        }
    }
    a / 2
}

/// The integer square root: the greatest `r` with `r * r <= n`.
pub open spec fn sqrt_floor(n: nat) -> nat
    decreases n,
{
    if n == 0 {
        0
    } else {
        let r = sqrt_floor((n - 1) as nat);
        if (r + 1) * (r + 1) <= n {
            r + 1
        } else {
            r
        }
    }
}

/// `sqrt_floor(n)` squares to at most `n`, and its successor squares past `n`.
pub proof fn lemma_sqrt_floor_bounds(n: nat)
    ensures
        sqrt_floor(n) * sqrt_floor(n) <= n,
        n < (sqrt_floor(n) + 1) * (sqrt_floor(n) + 1),
    decreases n,
{
    if n == 0 {
        assert(sqrt_floor(n) == 0);
        assert(n < (sqrt_floor(n) + 1) * (sqrt_floor(n) + 1)) by (nonlinear_arith)
            requires
                n == 0,
                sqrt_floor(n) == 0,
        ;
    } else {
        lemma_sqrt_floor_bounds((n - 1) as nat);
        let r = sqrt_floor((n - 1) as nat);
        if (r + 1) * (r + 1) <= n {
            assert(sqrt_floor(n) == r + 1);
            assert(n < (r + 2) * (r + 2)) by (nonlinear_arith)
                requires
                    n <= (r + 1) * (r + 1),
                    r >= 0,
            ;
        } else {
            assert(sqrt_floor(n) == r);
        }
    }
}

/// Any `r` bracketed by the square-root bounds is the square root.
pub proof fn lemma_sqrt_floor_unique(n: nat, r: nat)
    requires
        r * r <= n,
        n < (r + 1) * (r + 1),
    ensures
        r == sqrt_floor(n),
{
    let s = sqrt_floor(n);
    lemma_sqrt_floor_bounds(n);
    if r < s {
        assert(s * s > n) by (nonlinear_arith)
            requires
                r < s,
                n < (r + 1) * (r + 1),
                r >= 0,
        ;
    }
    if s < r {
        assert(r * r > n) by (nonlinear_arith)
            requires
                s < r,
                n < (s + 1) * (s + 1),
                s >= 0,
        ;
    }
}

/// Integer square root by bisection.
pub fn isqrt(n: u128) -> (r: u64)
    requires
        n <= 0x8000_0000_0000_0000_0000_0000_0000_0000u128,
    ensures
        r as nat == sqrt_floor(n as nat),
{
    let mut lo: u128 = 0;
    let mut hi: u128 = 0xFFFF_FFFF_FFFF_FFFFu128;
    proof {
        assert((0xFFFF_FFFF_FFFF_FFFFu128 as int) * (0xFFFF_FFFF_FFFF_FFFFu128 as int)
            == 0xFFFF_FFFF_FFFF_FFFE_0000_0000_0000_0001int) by (nonlinear_arith);
    }
    while lo + 1 < hi
        invariant
            lo < hi,
            hi <= 0xFFFF_FFFF_FFFF_FFFFu128,
            lo * lo <= n as int,
            (n as int) < hi * hi,
        decreases hi - lo,
    {
        let mid: u128 = lo + (hi - lo) / 2;
        proof {
            assert((mid as int) * (mid as int) < 0xFFFF_FFFF_FFFF_FFFF_FFFF_FFFF_FFFF_FFFFint)
                by (nonlinear_arith)
                requires
                    0 <= mid as int,
                    mid as int <= 0xFFFF_FFFF_FFFF_FFFEint,
            ;
        }
        if mid * mid <= n {
            lo = mid;
        } else {
            hi = mid;
        }
    }
    proof {
        lemma_sqrt_floor_unique(n as nat, lo as nat);
    }
    lo as u64
}

} // verus!
