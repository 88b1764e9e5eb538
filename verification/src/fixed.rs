//! Fixed-point scalar arithmetic.
//!
//! Every physical quantity of the simulation (mass, charge, position,
//! velocity, acceleration, force, the timestep and the force constants) is an
//! `i64` holding a multiple of `1 / SCALE` simulation units.  Products and
//! quotients are evaluated in 128-bit intermediates and rounded toward zero,
//! exactly as the spec functions here describe, so the executable code and
//! the contracts agree bit for bit.

use vstd::arithmetic::div_mod::{
    lemma_div_nonincreasing, lemma_div_of0, lemma_div_pos_is_pos, lemma_multiply_divide_le,
};
use vstd::arithmetic::mul::lemma_mul_upper_bound;
use vstd::prelude::*;

verus! {

/// Number of fixed-point steps in one simulation unit.
pub const SCALE: i64 = 1_000_000;

/// Largest magnitude any stored quantity may take.  Keeping every particle
/// field, force component and configuration scalar within `[-BOUND, BOUND]`
/// guarantees that all 128-bit intermediates of the force and integration
/// formulas fit without overflow.
pub const BOUND: i64 = 2_000_000_000;

pub open spec fn abs_int(a: int) -> int {
    if a >= 0 {
        a
    } else {
        -a
    }
}

pub open spec fn min_int(a: int, b: int) -> int {
    if a <= b {
        a
    } else {
        b
    }
}

pub open spec fn max_int(a: int, b: int) -> int {
    if a >= b {
        a
    } else {
        b
    }
}

/// A quantity that fits the representable range.
pub open spec fn in_bound(v: int) -> bool {
    -(BOUND as int) <= v <= BOUND as int
}

/// Quotient rounded toward zero: the rounding performed by the hardware
/// division that the executable code runs.
pub open spec fn div_tz(a: int, b: int) -> int
    recommends
        b > 0,
{
    if a >= 0 {
        a / b
    } else {
        -((-a) / b)
    }
}

/// Fixed-point product: `a * b` rescaled back down, rounded toward zero.
pub open spec fn fmul(a: int, b: int) -> int {
    div_tz(a * b, SCALE as int)
}

/// Rounding toward zero commutes with negation of the dividend.
pub proof fn lemma_div_tz_neg(a: int, b: int)
    requires
        b > 0,
    ensures
        div_tz(-a, b) == -div_tz(a, b),
{
    if a == 0 {
        lemma_div_of0(b);
    }
}

/// The quotient keeps the sign of the dividend.
pub proof fn lemma_div_tz_sign(a: int, b: int)
    requires
        b > 0,
    ensures
        a >= 0 ==> div_tz(a, b) >= 0,
        a <= 0 ==> div_tz(a, b) <= 0,
{
    if a >= 0 {
        lemma_div_pos_is_pos(a, b);
    } else {
        lemma_div_pos_is_pos(-a, b);
    }
}

/// A magnitude bound on the dividend transfers to the quotient:
/// `|a| <= b * c` gives `|a / b| <= c`.
pub proof fn lemma_div_tz_bound(a: int, b: int, c: int)
    requires
        b > 0,
        0 <= c,
        abs_int(a) <= b * c,
    ensures
        abs_int(div_tz(a, b)) <= c,
{
    if a >= 0 {
        lemma_div_pos_is_pos(a, b);
        lemma_multiply_divide_le(a, b, c);
    } else {
        lemma_div_pos_is_pos(-a, b);
        lemma_multiply_divide_le(-a, b, c);
    }
}

/// Division by a positive divisor never grows a magnitude.
pub proof fn lemma_div_tz_shrinks(a: int, b: int)
    requires
        b > 0,
    ensures
        abs_int(div_tz(a, b)) <= abs_int(a),
{
    if a >= 0 {
        lemma_div_pos_is_pos(a, b);
        lemma_div_nonincreasing(a, b);
    } else {
        lemma_div_pos_is_pos(-a, b);
        lemma_div_nonincreasing(-a, b);
    }
}

/// `r` is the integer square root of `n`.
pub open spec fn is_isqrt(n: int, r: int) -> bool {
    0 <= r && r * r <= n < (r + 1) * (r + 1)
}

/// The integer square root: the unique `r` with `r^2 <= n < (r+1)^2`.
pub closed spec fn isqrt(n: int) -> int {
    choose|r: int| is_isqrt(n, r)
}

/// Every nonnegative integer has an integer square root.
pub proof fn lemma_isqrt_exists(n: int)
    requires
        0 <= n,
    ensures
        is_isqrt(n, isqrt(n)),
    decreases n,
{
    if n == 0 {
        assert(is_isqrt(0, 0));
    } else {
        lemma_isqrt_exists(n - 1);
        let r = isqrt(n - 1);
        if (r + 1) * (r + 1) <= n {
            assert(n <= (r + 1) * (r + 1)) by {
                assert(n - 1 < (r + 1) * (r + 1));
            }
            assert(is_isqrt(n, r + 1)) by {
                assert((r + 1) * (r + 1) == n);
                assert(n < (r + 2) * (r + 2)) by (nonlinear_arith)
                    requires
                        0 <= r,
                        (r + 1) * (r + 1) == n,
                ;
            }
        } else {
            assert(is_isqrt(n, r));
        }
    }
}

/// The integer square root is unique.
pub proof fn lemma_isqrt_unique(n: int, r: int)
    requires
        is_isqrt(n, r),
    ensures
        r == isqrt(n),
{
    lemma_isqrt_exists(n);
    let s = isqrt(n);
    assert(r == s) by (nonlinear_arith)
        requires
            0 <= r,
            0 <= s,
            r * r <= n < (r + 1) * (r + 1),
            s * s <= n < (s + 1) * (s + 1),
    ;
}

/// Executable truncating division on 128-bit values, performed on unsigned
/// magnitudes so the rounding direction is explicit.
pub fn div_tz_i128(a: i128, b: i128) -> (q: i128)
    requires
        b > 0,
        a > i128::MIN,
    ensures
        q as int == div_tz(a as int, b as int),
        abs_int(q as int) <= abs_int(a as int),
{
    proof {
        lemma_div_tz_shrinks(a as int, b as int);
    }
    if a >= 0 {
        let m: u128 = (a as u128) / (b as u128);
        proof {
            lemma_div_pos_is_pos(a as int, b as int);
            lemma_div_nonincreasing(a as int, b as int);
        }
        m as i128
    } else {
        let neg: i128 = -a;
        let m: u128 = (neg as u128) / (b as u128);
        proof {
            lemma_div_pos_is_pos(neg as int, b as int);
            lemma_div_nonincreasing(neg as int, b as int);
        }
        -(m as i128)
    }
}

/// Executable fixed-point product of two bounded 128-bit values.
pub fn fmul_i128(a: i128, b: i128) -> (r: i128)
    requires
        abs_int(a as int) <= 0x4000_0000_0000_0000,
        abs_int(b as int) <= 0x4000_0000_0000_0000,
    ensures
        r as int == fmul(a as int, b as int),
        abs_int(r as int) <= abs_int(a as int) * abs_int(b as int),
{
    proof {
        assert(abs_int(a as int * b as int) == abs_int(a as int) * abs_int(b as int))
            by (nonlinear_arith);
        assert(abs_int(a as int) * abs_int(b as int) <= 0x4000_0000_0000_0000
            * 0x4000_0000_0000_0000) by {
            lemma_mul_upper_bound(
                abs_int(a as int),
                0x4000_0000_0000_0000,
                abs_int(b as int),
                0x4000_0000_0000_0000,
            );
        }
        lemma_div_tz_shrinks(a as int * b as int, SCALE as int);
    }
    let p: i128 = a * b;
    div_tz_i128(p, SCALE as i128)
}

/// Executable integer square root by bisection.
pub fn isqrt_u128(n: u128) -> (r: u64)
    requires
        (n as int) < 0x4000_0000_0000_0000_0000_0000_0000_0000,
    ensures
        r as int == isqrt(n as int),
        is_isqrt(n as int, r as int),
{
    let mut lo: u64 = 0;
    let mut hi: u64 = 0x8000_0000_0000_0000;
    proof {
        assert((hi as int) * (hi as int) == 0x4000_0000_0000_0000_0000_0000_0000_0000);
    }
    while hi - lo > 1
        invariant
            lo < hi,
            hi <= 0x8000_0000_0000_0000,
            (lo as int) * (lo as int) <= n as int,
            (n as int) < (hi as int) * (hi as int),
        decreases hi - lo,
    {
        let mid: u64 = lo + (hi - lo) / 2;
        proof {
            assert((mid as int) * (mid as int) < 0x4000_0000_0000_0000_0000_0000_0000_0000)
                by (nonlinear_arith)
                requires
                    0 <= (mid as int) < 0x8000_0000_0000_0000,
            ;
        }
        let sq: u128 = (mid as u128) * (mid as u128);
        if sq <= n {
            lo = mid;
        } else {
            hi = mid;
        }
    }
    proof {
        assert(hi == lo + 1);
        assert(is_isqrt(n as int, lo as int));
        lemma_isqrt_unique(n as int, lo as int);
    }
    lo
}

} // verus!
