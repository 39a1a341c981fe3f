//! Exact integer arithmetic helpers: truncating division and the integer
//! square root, together with the lemmas the geometry code needs about them.

use vstd::arithmetic::div_mod::{
    lemma_div_is_ordered, lemma_div_multiples_vanish, lemma_div_nonincreasing,
    lemma_div_pos_is_pos,
};
use vstd::prelude::*;

verus! {

/// Quotient of `n / d` rounded toward zero, the rounding that the
/// executable code uses for signed numerators (`d` must be positive).
pub open spec fn div_tz(n: int, d: int) -> int {
    if n >= 0 {
        n / d
    } else {
        -((-n) / d)
    }
}

/// Dividing an exact multiple of `d` by `d` recovers the factor.
pub proof fn lemma_div_tz_exact(k: int, d: int)
    requires
        1 <= d,
    ensures
        div_tz(k * d, d) == k,
{
    if k >= 0 {
        lemma_div_multiples_vanish(k, d);
        assert(k * d == d * k) by (nonlinear_arith);
    } else {
        lemma_div_multiples_vanish(-k, d);
        assert(-(k * d) == d * (-k)) by (nonlinear_arith);
    }
}

/// A numerator no larger than `d * b` in magnitude divides down to a
/// quotient no larger than `b` in magnitude.
pub proof fn lemma_div_tz_bound(n: int, d: int, b: int)
    requires
        1 <= d,
        0 <= b,
        -(d * b) <= n <= d * b,
    ensures
        -b <= div_tz(n, d) <= b,
{
    if n >= 0 {
        lemma_div_pos_is_pos(n, d);
        lemma_div_is_ordered(n, d * b, d);
        lemma_div_multiples_vanish(b, d);
    } else {
        lemma_div_pos_is_pos(-n, d);
        lemma_div_is_ordered(-n, d * b, d);
        lemma_div_multiples_vanish(b, d);
    }
}

/// Executable truncating division on `i64` with a positive divisor.
pub fn div_trunc(n: i64, d: i64) -> (q: i64)
    requires
        1 <= d,
        i64::MIN < n,
    ensures
        q as int == div_tz(n as int, d as int),
{
    if n >= 0 {
        let uq: u64 = (n as u64) / (d as u64);
        proof {
            lemma_div_pos_is_pos(n as int, d as int);
            lemma_div_nonincreasing(n as int, d as int);
        }
        uq as i64
    } else {
        let m: i64 = -n;
        let uq: u64 = (m as u64) / (d as u64);
        proof {
            lemma_div_pos_is_pos(m as int, d as int);
            lemma_div_nonincreasing(m as int, d as int);
        }
        -(uq as i64)
    }
}

/// `r` is the floor of the square root of `n`.
pub open spec fn is_sqrt_floor(n: int, r: int) -> bool {
    0 <= r && r * r <= n && n < (r + 1) * (r + 1)
}

/// The floor of the square root of `n` (meaningful for `n >= 0`).
pub open spec fn sqrt_floor(n: int) -> int {
    choose|r: int| is_sqrt_floor(n, r)
}

/// Any witness of `is_sqrt_floor` is the unique square-root floor.
pub proof fn lemma_sqrt_floor_unique(n: int, r: int)
    requires
        is_sqrt_floor(n, r),
    ensures
        sqrt_floor(n) == r,
{
    let w = choose|x: int| is_sqrt_floor(n, x);
    assert(is_sqrt_floor(n, w));
    assert(w == r) by (nonlinear_arith)
        requires
            0 <= w,
            w * w <= n,
            n < (w + 1) * (w + 1),
            0 <= r,
            r * r <= n,
            n < (r + 1) * (r + 1),
    ;
}

/// Executable integer square root by binary search.
pub fn isqrt(n: u64) -> (r: u64)
    requires
        (n as int) < 0x4000_0000_0000_0000,
    ensures
        is_sqrt_floor(n as int, r as int),
        r as int == sqrt_floor(n as int),
{
    if n == 0 {
        proof {
            lemma_sqrt_floor_unique(0, 0);
        }
        return 0;
    }
    let mut lo: u64 = 0;
    let mut hi: u64 = 0x8000_0000;
    proof {
        assert((0x8000_0000 as int) * (0x8000_0000 as int) == 0x4000_0000_0000_0000)
            by (nonlinear_arith);
    }
    while lo + 1 < hi
        invariant
            lo < hi <= 0x8000_0000,
            (lo as int) * (lo as int) <= n as int,
            (n as int) < (hi as int) * (hi as int),
        decreases hi - lo,
    {
        let mid: u64 = lo + (hi - lo) / 2;
        proof {
            assert(lo < mid < hi);
            assert((mid as int) * (mid as int) < 0x4000_0000_0000_0000) by (nonlinear_arith)
                requires
                    0 <= (mid as int) < 0x8000_0000,
            ;
        }
        if mid * mid <= n {
            lo = mid;
        } else {
            hi = mid;
        }
    }
    proof {
        assert(hi == lo + 1);
        lemma_sqrt_floor_unique(n as int, lo as int);
    }
    lo
}

} // verus!
