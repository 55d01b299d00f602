//! Small facts and functions of integer arithmetic that the rest of the
//! crate leans on.

use vstd::prelude::*;
use vstd::arithmetic::div_mod::{lemma_fundamental_div_mod, lemma_fundamental_div_mod_converse};

verus! {

/// The absolute value of an integer.
pub open spec fn abs(a: int) -> int {
    if a < 0 {
        -a
    } else {
        a
    }
}

/// `a` held to the range from `lo` to `hi`.
pub open spec fn clamp(a: int, lo: int, hi: int) -> int {
    if a < lo {
        lo
    } else if a > hi {
        hi
    } else {
        a
    }
}

/// The quotient `n / d` rounded towards minus infinity, for either sign of
/// a non-zero `d`.
pub open spec fn floor_div(n: int, d: int) -> int {
    if d > 0 {
        n / d
    } else {
        (-n) / (-d)
    }
}

/// A product is bounded by the product of the bounds of its factors.
pub proof fn lemma_mul_bounds(a: int, b: int, ma: int, mb: int)
    requires
        -ma <= a <= ma,
        -mb <= b <= mb,
    ensures
        -(ma * mb) <= a * b <= ma * mb,
{
    assert(-(ma * mb) <= a * b <= ma * mb) by (nonlinear_arith)
        requires
            -ma <= a <= ma,
            -mb <= b <= mb,
    ;
}

/// What pins a floored quotient down: it is the one integer `q` with
/// `q * d <= n < (q + 1) * d`, for a positive `d`.
pub proof fn lemma_floor_div_bounds(n: int, d: int)
    requires
        d > 0,
    ensures
        floor_div(n, d) * d <= n < floor_div(n, d) * d + d,
{
    lemma_fundamental_div_mod(n, d);
    assert(d * (n / d) == (n / d) * d) by (nonlinear_arith);
}

/// A quotient is no farther from zero than its numerator.
pub proof fn lemma_floor_div_size(n: int, d: int, m: int)
    requires
        d > 0,
        -m <= n <= m,
    ensures
        -m <= floor_div(n, d) <= m,
{
    lemma_floor_div_bounds(n, d);
    let q = floor_div(n, d);
    if q > m {
        assert(q * d >= q) by (nonlinear_arith)
            requires
                q > 0,
                d >= 1,
        ;
    }
    if q < -m {
        assert((q + 1) * d <= q + 1) by (nonlinear_arith)
            requires
                q + 1 <= 0,
                d >= 1,
        ;
        assert((q + 1) * d == q * d + d) by (nonlinear_arith);
    }
}

/// The floored quotient of `n` by a positive `d`.
pub fn div_floor(n: i128, d: i128) -> (q: i128)
    requires
        d > 0,
        n >= -0x4000_0000_0000_0000_0000_0000_0000_0000,
        d <= 0x4000_0000_0000_0000_0000_0000_0000_0000,
    ensures
        q == floor_div(n as int, d as int),
{
    if n >= 0 {
        n / d
    } else {
        let m: i128 = -n;
        let up: i128 = (m + (d - 1)) / d;
        proof {
            let q = (n as int) / (d as int);
            let r = (n as int) % (d as int);
            lemma_fundamental_div_mod(n as int, d as int);
            assert(d * q == q * d) by (nonlinear_arith);
            assert((m + (d - 1)) as int == (-q) * d + (d - 1 - r)) by (nonlinear_arith)
                requires
                    n == q * d + r,
                    m == -n,
            ;
            lemma_fundamental_div_mod_converse((m + (d - 1)) as int, d as int, -q, d - 1 - r);
        }
        -up
    }
}

/// `a` held to the range of an `i64`.
pub fn clamp_i64(a: i128) -> (r: i64)
    ensures
        r == clamp(a as int, i64::MIN as int, i64::MAX as int),
{
    if a < i64::MIN as i128 {
        i64::MIN
    } else if a > i64::MAX as i128 {
        i64::MAX
    } else {
        a as i64
    }
}

} // verus!
