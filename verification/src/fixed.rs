//! Fixed-point arithmetic for the movement and collision code.
//!
//! Kinematic quantities (positions, velocities, times, distances) are held
//! in `i64` milli-units: `SCALE` fixed-point steps per world unit. Division
//! truncates toward zero, computed on magnitudes with the sign reattached,
//! so every contract can state results with ordinary non-negative
//! Euclidean division.

use vstd::prelude::*;

verus! {

/// Fixed-point steps per world unit.
pub const SCALE: i64 = 1000;

/// Largest magnitude the kinematic quantities may take; keeps every product
/// used below within `i64`.
pub const FX_LIMIT: i64 = 2_000_000_000_000;

/// Magnitude of `a`.
pub open spec fn mag(a: int) -> int {
    if a >= 0 { a } else { -a }
}

/// `a * b / c` rounded toward zero: the magnitudes are multiplied and
/// divided, and the product's sign is reattached.
pub open spec fn spec_mul_div(a: int, b: int, c: int) -> int
    recommends c > 0,
{
    if (a >= 0) == (b >= 0) { mag(a) * mag(b) / c } else { -(mag(a) * mag(b) / c) }
}

/// Whether `r` is the non-negative integer square root of `n`, rounded
/// down.
pub open spec fn is_sqrt_floor(n: int, r: int) -> bool {
    r >= 0 && r * r <= n < (r + 1) * (r + 1)
}

/// The non-negative integer square root of `n`, rounded down.
pub open spec fn sqrt_floor(n: int) -> int
    recommends n >= 0,
{
    choose|r: int| is_sqrt_floor(n, r)
}

/// The non-negative integer square root of `n`, rounded up.
pub open spec fn sqrt_ceil(n: int) -> int
    recommends n >= 0,
{
    if sqrt_floor(n) * sqrt_floor(n) == n { sqrt_floor(n) } else { sqrt_floor(n) + 1 }
}

/// The rounded-down integer square root is unique.
proof fn lemma_sqrt_floor_unique(n: int, r1: int, r2: int)
    requires
        r1 >= 0 && r1 * r1 <= n < (r1 + 1) * (r1 + 1),
        r2 >= 0 && r2 * r2 <= n < (r2 + 1) * (r2 + 1),
    ensures
        r1 == r2,
{
    if r1 < r2 {
        assert((r1 + 1) * (r1 + 1) <= r2 * r2) by (nonlinear_arith)
            requires 0 <= r1, 0 <= r2, r1 + 1 <= r2;
    }
    if r2 < r1 {
        assert((r2 + 1) * (r2 + 1) <= r1 * r1) by (nonlinear_arith)
            requires 0 <= r1, 0 <= r2, r2 + 1 <= r1;
    }
}

/// Magnitude of `a`, as executable code.
pub fn fx_abs(a: i64) -> (r: i64)
    requires
        -FX_LIMIT <= a <= FX_LIMIT,
    ensures
        r == mag(a as int),
{
    if a >= 0 { a } else { -a }
}

/// `a * b / c` rounded toward zero.
pub fn mul_div(a: i64, b: i64, c: i64) -> (r: i64)
    requires
        c > 0,
        mag(a as int) * mag(b as int) <= 4_000_000_000_000_000_000,
        -FX_LIMIT <= a <= FX_LIMIT,
        -FX_LIMIT <= b <= FX_LIMIT,
    ensures
        r == spec_mul_div(a as int, b as int, c as int),
        mag(r as int) * (c as int) <= mag(a as int) * mag(b as int),
        mag(r as int) <= mag(a as int) * mag(b as int),
{
    let am = if a >= 0 { a } else { -a };
    let bm = if b >= 0 { b } else { -b };
    let m = (am * bm) / c;
    proof {
        let x = (am as int) * (bm as int);
        assert(x >= 0) by (nonlinear_arith)
            requires x == (am as int) * (bm as int), am >= 0, bm >= 0;
        vstd::arithmetic::div_mod::lemma_fundamental_div_mod(x, c as int);
        vstd::arithmetic::div_mod::lemma_mod_bound(x, c as int);
        assert(m == x / (c as int));
        assert(m as int * (c as int) <= x) by (nonlinear_arith)
            requires
                m == x / (c as int),
                x == (c as int) * (x / (c as int)) + x % (c as int),
                x % (c as int) >= 0;
        assert(mag(m as int) <= mag(a as int) * mag(b as int)) by (nonlinear_arith)
            requires
                m as int * (c as int) <= (am as int) * (bm as int),
                m >= 0,
                c >= 1,
                am as int == mag(a as int),
                bm as int == mag(b as int);
    }
    if (a >= 0) == (b >= 0) { m } else { -m }
}

/// The non-negative integer square root of `n`, rounded down, by bisection.
pub fn isqrt(n: i64) -> (r: i64)
    requires
        0 <= n <= 4_000_000_000_000_000_000,
    ensures
        r >= 0,
        r * r <= n,
        n < (r + 1) * (r + 1),
        r <= 2_000_000_000,
        r == sqrt_floor(n as int),
{
    let mut lo: i64 = 0;
    let mut hi: i64 = 2_000_000_001;
    proof {
        assert((hi as int) * (hi as int) > n as int) by (nonlinear_arith)
            requires hi == 2_000_000_001i64, n <= 4_000_000_000_000_000_000i64;
    }
    while hi - lo > 1
        invariant
            0 <= lo < hi <= 2_000_000_001,
            lo * lo <= n,
            (hi as int) * (hi as int) > n as int,
        decreases hi - lo,
    {
        let mid = lo + (hi - lo) / 2;
        proof {
            assert(lo < mid < hi);
            assert((mid as int) * (mid as int) <= 4_100_000_000_000_000_000) by (nonlinear_arith)
                requires 0 < mid <= 2_000_000_001i64;
        }
        if mid * mid <= n {
            lo = mid;
        } else {
            hi = mid;
        }
    }
    proof {
        let r = lo as int;
        assert(is_sqrt_floor(n as int, r));
        let rc = sqrt_floor(n as int);
        assert(is_sqrt_floor(n as int, rc));
        lemma_sqrt_floor_unique(n as int, r, rc);
    }
    lo
}

/// The non-negative integer square root of `n`, rounded up.
pub fn isqrt_up(n: i64) -> (r: i64)
    requires
        0 <= n <= 4_000_000_000_000_000_000,
    ensures
        r >= 0,
        r * r >= n,
        r == sqrt_ceil(n as int),
        n > 0 ==> r >= 1,
        r <= 2_000_000_001,
{
    let f = isqrt(n);
    let r = if f * f == n { f } else { f + 1 };
    proof {
        if n > 0 && r == 0 {
            assert(f == 0);
            assert(f * f == 0) by (nonlinear_arith)
                requires f == 0i64;
            assert(false);
        }
    }
    r
}

/// The smaller of `a` and `b`.
pub fn fx_min(a: i64, b: i64) -> (r: i64)
    ensures
        r == if a <= b { a as int } else { b as int },
{
    if a <= b { a } else { b }
}


/// `a / c` rounded toward zero.
pub fn div_trunc(a: i64, c: i64) -> (r: i64)
    requires
        c > 0,
        -4_000_000_000_000_000_000 <= a <= 4_000_000_000_000_000_000,
    ensures
        r == spec_mul_div(a as int, 1, c as int),
        mag(r as int) <= mag(a as int),
{
    let am = if a >= 0 { a } else { -a };
    let m = am / c;
    proof {
        vstd::arithmetic::div_mod::lemma_div_pos_is_pos(am as int, c as int);
        vstd::arithmetic::div_mod::lemma_div_nonincreasing(am as int, c as int);
        assert(mag(a as int) * 1 == mag(a as int));
    }
    if a >= 0 { m } else { -m }
}

/// The non-negative integer square root, rounded down, of a wide value.
pub fn isqrt_wide(n: i128) -> (r: i64)
    requires
        0 <= n <= 1_000_000_000_000_000_000_000_000,
    ensures
        r >= 0,
        (r as int) * (r as int) <= n,
        n < (r as int + 1) * (r as int + 1),
        r <= 1_000_000_000_000,
        r == sqrt_floor(n as int),
{
    let mut lo: i128 = 0;
    let mut hi: i128 = 1_000_000_000_001;
    proof {
        assert((hi as int) * (hi as int) > n as int) by (nonlinear_arith)
            requires hi == 1_000_000_000_001i128, n <= 1_000_000_000_000_000_000_000_000i128;
    }
    while hi - lo > 1
        invariant
            0 <= lo < hi <= 1_000_000_000_001,
            (lo as int) * (lo as int) <= n,
            (hi as int) * (hi as int) > n as int,
        decreases hi - lo,
    {
        let mid = lo + (hi - lo) / 2;
        proof {
            assert(lo < mid < hi);
            assert((mid as int) * (mid as int) <= 1_100_000_000_000_000_000_000_000)
                by (nonlinear_arith)
                requires 0 < mid <= 1_000_000_000_001i128;
        }
        if mid * mid <= n {
            lo = mid;
        } else {
            hi = mid;
        }
    }
    proof {
        let r = lo as int;
        assert(is_sqrt_floor(n as int, r));
        let rc = sqrt_floor(n as int);
        assert(is_sqrt_floor(n as int, rc));
        lemma_sqrt_floor_unique(n as int, r, rc);
    }
    lo as i64
}

/// `a * b / c` rounded toward zero, for a component `a` of a vector whose
/// norm is at most `c`: the result's magnitude never exceeds `b`'s.
pub fn advance_along(a: i64, b: i64, c: i64) -> (r: i64)
    requires
        1 <= c <= 4_000_000_000_000_000_000,
        mag(a as int) <= c,
        mag(b as int) <= FX_LIMIT,
    ensures
        r == spec_mul_div(a as int, b as int, c as int),
        mag(r as int) <= mag(b as int),
{
    let am: i128 = if a >= 0 { a as i128 } else { -(a as i128) };
    let bm: i128 = if b >= 0 { b as i128 } else { -(b as i128) };
    proof {
        assert(am == mag(a as int));
        assert(bm == mag(b as int));
        assert(0 <= am <= 4_000_000_000_000_000_000);
        assert(0 <= bm <= 2_000_000_000_000);
        assert(0 <= am * bm <= 8_000_000_000_000_000_000_000_000_000_000) by (nonlinear_arith)
            requires 0 <= am <= 4_000_000_000_000_000_000i128, 0 <= bm <= 2_000_000_000_000i128;
    }
    let mw = (am * bm) / (c as i128);
    proof {
        let x = am * bm;
        vstd::arithmetic::div_mod::lemma_fundamental_div_mod(x as int, c as int);
        vstd::arithmetic::div_mod::lemma_mod_bound(x as int, c as int);
        assert(mw == x as int / (c as int));
        assert(mw as int * (c as int) <= x) by (nonlinear_arith)
            requires
                mw == x as int / (c as int),
                x == (c as int) * (x as int / (c as int)) + x as int % (c as int),
                x as int % (c as int) >= 0;
        assert(mw <= bm) by (nonlinear_arith)
            requires
                mw as int * (c as int) <= am * bm,
                am <= c,
                c >= 1,
                bm >= 0,
                mw >= 0;
    }
    let m = mw as i64;
    if (a >= 0) == (b >= 0) { m } else { -m }
}
} // verus!
