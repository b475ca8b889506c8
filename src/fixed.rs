//! Fixed-point arithmetic in micro-units.
use vstd::prelude::*;

verus! {

/// Number of micro-units in one unit (one g, one degree per second, ...).
pub const SCALE: i64 = 1_000_000;

/// Absolute value over the integers.
pub open spec fn abs(v: int) -> int {
    if v < 0 {
        -v
    } else {
        v
    }
}

/// Division rounding toward zero, as Rust's integer `/` does.
pub open spec fn trunc_div(a: int, b: int) -> int {
    if a >= 0 {
        a / b
    } else {
        -((-a) / b)
    }
}

/// `v` limited to the closed interval `[lo, hi]`.
pub open spec fn clamp(v: int, lo: int, hi: int) -> int {
    if v < lo {
        lo
    } else if v > hi {
        hi
    } else {
        v
    }
}

/// Integer division rounding toward zero.
pub fn div_trunc(a: i128, b: i128) -> (r: i128)
    requires
        b > 0,
        a > i128::MIN,
    ensures
        r == trunc_div(a as int, b as int),
{
    if a >= 0 {
        a / b
    } else {
        let n = -a;
        -(n / b)
    }
}

/// The truncated quotient lies between zero and the exact quotient.
pub proof fn lemma_trunc_div_bounds(a: int, b: int)
    requires
        b > 0,
    ensures
        a >= 0 ==> 0 <= trunc_div(a, b) && b * trunc_div(a, b) <= a,
        a < 0 ==> trunc_div(a, b) <= 0 && b * trunc_div(a, b) >= a,
{
    if a >= 0 {
        assert(0 <= a / b && b * (a / b) <= a) by (nonlinear_arith)
            requires a >= 0, b > 0;
    } else {
        let n = -a;
        assert(0 <= n / b && b * (n / b) <= n) by (nonlinear_arith)
            requires n > 0, b > 0;
        assert(trunc_div(a, b) == -(n / b));
        assert(b * trunc_div(a, b) == -(b * (n / b))) by (nonlinear_arith)
            requires trunc_div(a, b) == -(n / b);
    }
}

/// `r` is the square root of `n` rounded down.
pub open spec fn is_isqrt(n: int, r: int) -> bool {
    r >= 0 && r * r <= n && n < (r + 1) * (r + 1)
}

/// The square root of `n` rounded down.
pub open spec fn root(n: int) -> int {
    choose|r: int| is_isqrt(n, r)
}

/// Bound below which `isqrt` takes its argument: `2^126`.
pub const ISQRT_LIMIT: u128 = 0x4000_0000_0000_0000_0000_0000_0000_0000;

/// A rounded-down square root is unique, so `root` names it.
pub proof fn lemma_root_unique(n: int, r: int)
    requires
        is_isqrt(n, r),
    ensures
        root(n) == r,
{
    let c = root(n);
    assert(is_isqrt(n, c));
    if c < r {
        assert((c + 1) * (c + 1) <= r * r) by (nonlinear_arith)
            requires 0 <= c, c + 1 <= r;
    } else if c > r {
        assert((r + 1) * (r + 1) <= c * c) by (nonlinear_arith)
            requires 0 <= r, r + 1 <= c;
    }
}

/// Each term of a sum of squares is at most the sum's root in magnitude.
pub proof fn lemma_root_dominates(v: int, rest: int)
    requires
        rest >= 0,
    ensures
        abs(v) <= root(v * v + rest),
        root(v * v + rest) >= 0,
        (root(v * v + rest) == 0) == (v == 0 && rest == 0),
{
    let n = v * v + rest;
    assert(n >= 0) by (nonlinear_arith)
        requires rest >= 0, n == v * v + rest;
    lemma_root_exists(n);
    let m = root(n);
    let a = abs(v);
    assert(a * a == v * v) by (nonlinear_arith)
        requires a == abs(v);
    if a > m {
        assert((m + 1) * (m + 1) <= a * a) by (nonlinear_arith)
            requires m >= 0, a >= m + 1;
    }
    if m == 0 {
        assert(a == 0);
        assert(v * v == 0) by (nonlinear_arith)
            requires v == 0;
        assert(n < 1) by (nonlinear_arith)
            requires m == 0, n < (m + 1) * (m + 1);
    } else {
        assert(n >= 1) by (nonlinear_arith)
            requires m >= 1, m * m <= n;
        if v == 0 {
            assert(v * v == 0);
        }
    }
}

/// Every natural number has a rounded-down square root.
pub proof fn lemma_root_exists(n: int)
    requires
        n >= 0,
    ensures
        is_isqrt(n, root(n)),
    decreases n,
{
    if n == 0 {
        assert(is_isqrt(0, 0));
    } else {
        lemma_root_exists(n - 1);
        let c = root(n - 1);
        if (c + 1) * (c + 1) <= n {
            assert(n < (c + 2) * (c + 2)) by (nonlinear_arith)
                requires n - 1 < (c + 1) * (c + 1), c >= 0;
            assert(is_isqrt(n, c + 1));
        } else {
            assert(is_isqrt(n, c));
        }
    }
}

/// The integer square root: the largest `r` with `r * r <= n`.
pub fn isqrt(n: u128) -> (r: u128)
    requires
        n < ISQRT_LIMIT,
    ensures
        is_isqrt(n as int, r as int),
        r == root(n as int),
{
    let mut lo: u128 = 0;
    let mut hi: u128 = 0x8000_0000_0000_0000;
    assert(hi * hi == ISQRT_LIMIT);
    while hi - lo > 1
        invariant
            lo < hi,
            hi <= 0x8000_0000_0000_0000,
            lo * lo <= n,
            n < hi * hi,
        decreases hi - lo,
    {
        let mid = lo + (hi - lo) / 2;
        assert(mid * mid <= 0x8000_0000_0000_0000u128 * 0x8000_0000_0000_0000u128) by (nonlinear_arith)
            requires mid <= 0x8000_0000_0000_0000u128;
        if mid * mid <= n {
            lo = mid;
        } else {
            hi = mid;
        }
    }
    proof {
        lemma_root_unique(n as int, lo as int);
    }
    lo
}

} // verus!
