//! Fixed-point numbers: a real value `v` is held as the integer nearest to
//! `v * ONE`.

use vstd::prelude::*;

verus! {

/// The integer that stands for the real value 1.
pub const ONE: i64 = 65536;

/// The quotient of `n` by a positive `d`, rounded toward zero.
pub open spec fn trunc_div(n: int, d: int) -> int {
    if n >= 0 {
        n / d
    } else {
        -((-n) / d)
    }
}

/// A quotient rounded toward zero is no larger in magnitude than the bound
/// that the dividend keeps per unit of the divisor.
pub proof fn lemma_trunc_div_bound(n: int, d: int, bound: int)
    requires
        d > 0,
        bound >= 0,
        -(bound * d) <= n <= bound * d,
    ensures
        -bound <= trunc_div(n, d) <= bound,
{
    if n >= 0 {
        assert(n / d <= bound) by (nonlinear_arith)
            requires
                d > 0,
                0 <= n <= bound * d,
        ;
        assert(0 <= n / d) by (nonlinear_arith)
            requires
                d > 0,
                0 <= n,
        ;
    } else {
        let m = -n;
        assert(m / d <= bound) by (nonlinear_arith)
            requires
                d > 0,
                0 <= m <= bound * d,
        ;
        assert(0 <= m / d) by (nonlinear_arith)
            requires
                d > 0,
                0 <= m,
        ;
    }
}

/// An exact multiple divides back to its factor, whatever its sign.
pub proof fn lemma_trunc_div_multiple(k: int, d: int)
    requires
        d > 0,
    ensures
        trunc_div(k * d, d) == k,
{
    if k >= 0 {
        assert(k * d >= 0 && (k * d) / d == k) by (nonlinear_arith)
            requires
                d > 0,
                k >= 0,
        ;
    } else {
        let j = -k;
        assert(k * d < 0 && -(k * d) == j * d && (j * d) / d == j) by (nonlinear_arith)
            requires
                d > 0,
                k < 0,
                j == -k,
        ;
    }
}

/// Divides by a positive number, rounding toward zero.
pub(crate) fn div_toward_zero(n: i128, d: i128) -> (q: i128)
    requires
        d > 0,
    ensures
        q == trunc_div(n as int, d as int),
{
    n / d
}

} // verus!
