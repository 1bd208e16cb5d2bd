//! Fixed-point scalar kernel.
//!
//! A real number `v` is held as the `i64` value `v * SCALE`, rounded toward
//! zero. Products and quotients are computed exactly over `u128` magnitudes,
//! so every contract states the exact integer result.

use vstd::prelude::*;
use vstd::arithmetic::div_mod::lemma_div_is_ordered;
use vstd::arithmetic::div_mod::lemma_div_pos_is_pos;

verus! {

/// One real unit in fixed-point representation (2^16).
pub const SCALE: i64 = 65536;

/// Magnitude cap accepted by the scalar operations (2^39): a product of two
/// such values divided by `SCALE` stays inside `i64`.
pub const LIM: i64 = 549755813888;

/// One half in fixed-point representation.
pub const HALF: i64 = 32768;

/// Quotient rounded toward zero (what machine division computes), for a
/// positive divisor.
pub open spec fn div_trunc(p: int, d: int) -> int
    recommends
        d > 0,
{
    if p >= 0 {
        p / d
    } else {
        -((-p) / d)
    }
}

/// Value of the fixed-point product of `a` and `b`.
pub open spec fn fx_mul_spec(a: int, b: int) -> int {
    div_trunc(a * b, SCALE as int)
}

/// Value of the fixed-point quotient of `a` by `b` (`b > 0`).
pub open spec fn fx_div_spec(a: int, b: int) -> int
    recommends
        b > 0,
{
    div_trunc(a * (SCALE as int), b)
}

/// A magnitude bound on the operands gives a magnitude bound on the
/// truncated quotient.
pub proof fn lemma_div_trunc_bound(p: int, pm: int, d: int)
    requires
        -pm <= p <= pm,
        0 <= pm,
        0 < d,
    ensures
        -(pm / d) <= div_trunc(p, d) <= pm / d,
{
    if p >= 0 {
        lemma_div_is_ordered(p, pm, d);
        lemma_div_pos_is_pos(p, d);
    } else {
        lemma_div_is_ordered(-p, pm, d);
        lemma_div_pos_is_pos(-p, d);
    }
}

/// A magnitude bound on the factors gives a magnitude bound on the
/// fixed-point product.
pub proof fn lemma_fx_mul_bound(a: int, b: int, am: int, bm: int)
    requires
        -am <= a <= am,
        -bm <= b <= bm,
        0 <= am,
        0 <= bm,
    ensures
        -((am * bm) / (SCALE as int)) <= fx_mul_spec(a, b) <= (am * bm) / (SCALE as int),
{
    assert(-(am * bm) <= a * b <= am * bm) by (nonlinear_arith)
        requires
            -am <= a <= am,
            -bm <= b <= bm,
            0 <= am,
            0 <= bm,
    ;
    assert(am * bm >= 0) by (nonlinear_arith)
        requires
            0 <= am,
            0 <= bm,
    ;
    lemma_div_trunc_bound(a * b, am * bm, SCALE as int);
}

/// Fixed-point product, rounded toward zero.
pub fn fx_mul(a: i64, b: i64) -> (r: i64)
    requires
        -LIM <= a <= LIM,
        -LIM <= b <= LIM,
    ensures
        r == fx_mul_spec(a as int, b as int),
{
    let neg: bool = (a < 0) != (b < 0);
    let aa: u64 = if a < 0 {
        (-a) as u64
    } else {
        a as u64
    };
    let bb: u64 = if b < 0 {
        (-b) as u64
    } else {
        b as u64
    };
    proof {
        assert((aa as int) * (bb as int) <= (LIM as int) * (LIM as int)) by (nonlinear_arith)
            requires
                0 <= aa <= LIM,
                0 <= bb <= LIM,
        ;
    }
    let p: u128 = (aa as u128) * (bb as u128);
    let q: u128 = p / (SCALE as u128);
    proof {
        lemma_div_is_ordered(p as int, (LIM as int) * (LIM as int), SCALE as int);
        lemma_div_pos_is_pos(p as int, SCALE as int);
        assert((a as int) * (b as int) == if neg {
            -((aa as int) * (bb as int))
        } else {
            (aa as int) * (bb as int)
        }) by (nonlinear_arith)
            requires
                aa == if a < 0 {
                    -(a as int)
                } else {
                    a as int
                },
                bb == if b < 0 {
                    -(b as int)
                } else {
                    b as int
                },
                neg == ((a < 0) != (b < 0)),
        ;
    }
    let qi: i64 = q as i64;
    if neg {
        -qi
    } else {
        qi
    }
}

/// Fixed-point quotient by a positive divisor, rounded toward zero.
pub fn fx_div(a: i64, b: i64) -> (r: i64)
    requires
        -LIM <= a <= LIM,
        0 < b,
    ensures
        r == fx_div_spec(a as int, b as int),
{
    let neg: bool = a < 0;
    let aa: u64 = if a < 0 {
        (-a) as u64
    } else {
        a as u64
    };
    let p: u128 = (aa as u128) * (SCALE as u128);
    let q: u128 = p / (b as u128);
    proof {
        lemma_div_is_ordered(p as int, (LIM as int) * (SCALE as int), b as int);
        lemma_div_is_ordered_by_denominator_one(p as int, b as int);
        lemma_div_pos_is_pos(p as int, b as int);
        assert((a as int) * (SCALE as int) == if neg {
            -((aa as int) * (SCALE as int))
        } else {
            (aa as int) * (SCALE as int)
        });
    }
    let qi: i64 = q as i64;
    if neg {
        -qi
    } else {
        qi
    }
}

/// A nonnegative value divided by a positive divisor is at most the value.
proof fn lemma_div_is_ordered_by_denominator_one(x: int, d: int)
    requires
        0 <= x,
        1 <= d,
    ensures
        x / d <= x,
{
    vstd::arithmetic::div_mod::lemma_div_is_ordered_by_denominator(x, 1, d);
    assert(x / 1 == x);
}

/// `s` is the integer square root of `n`.
pub open spec fn is_isqrt(n: int, s: int) -> bool {
    0 <= s && s * s <= n && n < (s + 1) * (s + 1)
}

/// The integer square root of `n`, as a mathematical function.
pub open spec fn sqrt_floor(n: int) -> int {
    choose|s: int| is_isqrt(n, s)
}

proof fn lemma_isqrt_exists(n: int) -> (s: int)
    requires
        n >= 0,
    ensures
        is_isqrt(n, s),
    decreases n,
{
    if n == 0 {
        0
    } else {
        let s0 = lemma_isqrt_exists(n - 1);
        if (s0 + 1) * (s0 + 1) <= n {
            assert(n < (s0 + 2) * (s0 + 2)) by (nonlinear_arith)
                requires
                    s0 >= 0,
                    n - 1 < (s0 + 1) * (s0 + 1),
                    (s0 + 1) * (s0 + 1) <= n,
            ;
            assert(is_isqrt(n, s0 + 1));
            s0 + 1
        } else {
            assert(is_isqrt(n, s0));
            s0
        }
    }
}

/// An integer whose square root is zero is itself zero (given that it is
/// a sum of squares, hence nonnegative).
pub proof fn lemma_isqrt_zero(n: int)
    requires
        is_isqrt(n, 0),
        n >= 0,
    ensures
        n == 0,
{
    assert((0 + 1) * (0 + 1) == 1) by (nonlinear_arith);
}

/// The integer square root is unique.
pub proof fn lemma_isqrt_unique(n: int, s: int, t: int)
    requires
        is_isqrt(n, s),
        is_isqrt(n, t),
    ensures
        s == t,
{
    assert(s == t) by (nonlinear_arith)
        requires
            0 <= s,
            s * s <= n < (s + 1) * (s + 1),
            0 <= t,
            t * t <= n < (t + 1) * (t + 1),
    ;
}

/// For a nonnegative `n`, `sqrt_floor(n)` really is the integer square root.
pub proof fn lemma_sqrt_floor(n: int)
    requires
        n >= 0,
    ensures
        is_isqrt(n, sqrt_floor(n)),
{
    let s = lemma_isqrt_exists(n);
    assert(exists|t: int| is_isqrt(n, t));
}

/// Integer square root: the greatest `r` with `r * r <= n`.
pub fn isqrt(n: u64) -> (r: u64)
    ensures
        r as int == sqrt_floor(n as int),
        is_isqrt(n as int, r as int),
        r <= 4294967295,
{
    let mut lo: u64 = 0;
    let mut hi: u64 = 4294967296;
    proof {
        assert((n as int) < 4294967296int * 4294967296int) by (nonlinear_arith)
            requires
                n <= u64::MAX,
        ;
    }
    while lo + 1 < hi
        invariant
            lo < hi <= 4294967296,
            (lo as int) * (lo as int) <= n as int,
            (n as int) < (hi as int) * (hi as int),
        decreases hi - lo,
    {
        let mid: u64 = lo + (hi - lo) / 2;
        proof {
            assert(0 <= (mid as int) * (mid as int) <= 4294967296int * 4294967296int)
                by (nonlinear_arith)
                requires
                    0 <= mid <= 4294967296,
            ;
        }
        let sq: u128 = (mid as u128) * (mid as u128);
        if sq <= (n as u128) {
            lo = mid;
        } else {
            hi = mid;
        }
    }
    proof {
        lemma_sqrt_floor(n as int);
        lemma_isqrt_unique(n as int, lo as int, sqrt_floor(n as int));
    }
    lo
}

/// Dividing an exact multiple of a positive divisor gives back the factor.
pub proof fn lemma_mul_div_exact(a: int, d: int)
    requires
        0 < d,
    ensures
        (a * d) / d == a,
{
    vstd::arithmetic::div_mod::lemma_fundamental_div_mod_converse_div(a * d, d, a, 0);
}

} // verus!
