//! Fixed-point arithmetic shared by the control layer.
//!
//! Every real-valued quantity (a sample, a rate, a frequency in hertz, an
//! interval in seconds, a phase in cycles) is held as an integer count of
//! millionths: the real number `x` is the integer `x * ONE`.

use vstd::prelude::*;
use vstd::arithmetic::div_mod::lemma_fundamental_div_mod_converse;

verus! {

/// The integer that stands for the real number one.
pub const ONE: i32 = 1_000_000;

/// The quotient of `a` by a positive `d`, rounded toward zero.
pub open spec fn toward_zero(a: int, d: int) -> int {
    if a >= 0 {
        a / d
    } else {
        -((-a) / d)
    }
}

/// Rounding toward zero never leaves the interval between zero and the
/// exact quotient: `d` times the result has the sign of `a` and is no
/// larger in magnitude.
pub proof fn lemma_toward_zero_bounds(a: int, d: int)
    requires
        d > 0,
    ensures
        a >= 0 ==> 0 <= d * toward_zero(a, d) <= a,
        a <= 0 ==> a <= d * toward_zero(a, d) <= 0,
        a >= 0 ==> 0 <= toward_zero(a, d) <= a,
        a <= 0 ==> a <= toward_zero(a, d) <= 0,
{
    let m: int = if a >= 0 { a } else { -a };
    assert(m == d * (m / d) + m % d && 0 <= m % d < d && 0 <= m / d <= m) by (nonlinear_arith)
        requires
            m >= 0,
            d > 0,
    ;
    assert(d * -(m / d) == -(d * (m / d))) by (nonlinear_arith);
}

/// The quotient of `a` by `d`, rounded toward minus infinity.
pub fn floor_div(a: i128, d: i128) -> (q: i128)
    requires
        d > 0,
    ensures
        q == a / d,
{
    let q: i128 = a / d;
    let r: i128 = a % d;
    proof {
        let m: int = if a >= 0 { a as int } else { -(a as int) };
        assert(m == d * (m / (d as int)) + m % (d as int) && 0 <= m % (d as int) < d)
            by (nonlinear_arith)
            requires
                m >= 0,
                d > 0,
        ;
        if a < 0 {
            if r < 0 {
                assert(a == (q - 1) * d + (d + r)) by (nonlinear_arith)
                    requires
                        -a == d * (-q) + (-r),
                ;
                assert(-q <= d * (-q)) by (nonlinear_arith)
                    requires
                        d >= 1,
                        -q >= 0,
                ;
                lemma_fundamental_div_mod_converse(a as int, d as int, q - 1, d + r);
            } else {
                assert(a == q * d + 0) by (nonlinear_arith)
                    requires
                        -a == d * (-q) + 0,
                ;
                lemma_fundamental_div_mod_converse(a as int, d as int, q as int, 0);
            }
        }
    }
    if r < 0 {
        q - 1
    } else {
        q
    }
}

/// The remainder of `a` by `d` that lies in `0..d`.
pub fn floor_mod(a: i128, d: i128) -> (r: i128)
    requires
        d > 0,
    ensures
        r == a % d,
        0 <= r < d,
{
    let r: i128 = a % d;
    proof {
        let m: int = if a >= 0 { a as int } else { -(a as int) };
        assert(m == d * (m / (d as int)) + m % (d as int) && 0 <= m % (d as int) < d)
            by (nonlinear_arith)
            requires
                m >= 0,
                d > 0,
        ;
        if a < 0 {
            let q: int = -(m / (d as int));
            if r < 0 {
                assert(a == (q - 1) * d + (d + r)) by (nonlinear_arith)
                    requires
                        -a == d * (-q) + (-r),
                ;
                lemma_fundamental_div_mod_converse(a as int, d as int, q - 1, d + r);
            } else {
                assert(a == q * d + 0) by (nonlinear_arith)
                    requires
                        -a == d * (-q) + 0,
                ;
                lemma_fundamental_div_mod_converse(a as int, d as int, q, 0);
            }
        }
    }
    if r < 0 {
        r + d
    } else {
        r
    }
}

} // verus!
