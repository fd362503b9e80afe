//! Fixed-point scalar arithmetic.
//!
//! A world coordinate is an `i64` counting 1/`UNIT` world units, so 65536
//! quanta make one world unit. All routines here are exact integer
//! computations; division truncates toward zero, as `div_trunc` states.

use vstd::prelude::*;
use vstd::arithmetic::div_mod::lemma_fundamental_div_mod;
use vstd::arithmetic::div_mod::lemma_div_is_ordered;
use vstd::arithmetic::div_mod::lemma_div_multiples_vanish;

verus! {

/// Quanta per world unit.
pub const UNIT: i64 = 65536;

/// Truncating (toward zero) division for a positive divisor, the semantics
/// of the magnitude-and-sign divisions performed by the executable code.
pub open spec fn div_trunc(n: int, d: int) -> int {
    if n >= 0 {
        n / d
    } else {
        -((-n) / d)
    }
}

/// Floor of the square root, the mathematical meaning of `isqrt`.
pub open spec fn sqrt_floor(n: int) -> int
    decreases n,
{
    if n <= 0 {
        0
    } else {
        let r = sqrt_floor(n - 1);
        if (r + 1) * (r + 1) <= n {
            r + 1
        } else {
            r
        }
    }
}

/// `sqrt_floor(n)` is the unique `r >= 0` with `r^2 <= n < (r+1)^2`.
pub proof fn lemma_sqrt_floor_bounds(n: int)
    requires
        n >= 0,
    ensures
        sqrt_floor(n) >= 0,
        sqrt_floor(n) * sqrt_floor(n) <= n,
        n < (sqrt_floor(n) + 1) * (sqrt_floor(n) + 1),
    decreases n,
{
    if n == 0 {
    } else {
        lemma_sqrt_floor_bounds(n - 1);
        let r = sqrt_floor(n - 1);
        if (r + 1) * (r + 1) <= n {
            assert(n < (r + 2) * (r + 2)) by (nonlinear_arith)
                requires
                    r >= 0,
                    n - 1 < (r + 1) * (r + 1),
            ;
        }
    }
}

/// Any `r` satisfying the square-root bracketing equals `sqrt_floor(n)`.
pub proof fn lemma_sqrt_floor_unique(n: int, r: int)
    requires
        n >= 0,
        r >= 0,
        r * r <= n,
        n < (r + 1) * (r + 1),
    ensures
        sqrt_floor(n) == r,
{
    let s = sqrt_floor(n);
    lemma_sqrt_floor_bounds(n);
    if s < r {
        assert((s + 1) * (s + 1) <= r * r) by (nonlinear_arith)
            requires
                0 <= s,
                s + 1 <= r,
        ;
    }
    if s > r {
        assert((r + 1) * (r + 1) <= s * s) by (nonlinear_arith)
            requires
                0 <= r,
                r + 1 <= s,
        ;
    }
}

/// A lower witness bounds `sqrt_floor` from below.
pub proof fn lemma_sqrt_floor_at_least(n: int, m: int)
    requires
        n >= 0,
        m >= 0,
        m * m <= n,
    ensures
        sqrt_floor(n) >= m,
{
    let s = sqrt_floor(n);
    lemma_sqrt_floor_bounds(n);
    if s < m {
        assert((s + 1) * (s + 1) <= m * m) by (nonlinear_arith)
            requires
                0 <= s,
                s + 1 <= m,
        ;
    }
}

/// An upper witness bounds `sqrt_floor` from above.
pub proof fn lemma_sqrt_floor_at_most(n: int, m: int)
    requires
        n >= 0,
        m >= 0,
        n < (m + 1) * (m + 1),
    ensures
        sqrt_floor(n) <= m,
{
    let s = sqrt_floor(n);
    lemma_sqrt_floor_bounds(n);
    if s > m {
        assert((m + 1) * (m + 1) <= s * s) by (nonlinear_arith)
            requires
                0 <= m,
                m + 1 <= s,
        ;
    }
}

/// Division bracketing for a nonnegative dividend and positive divisor.
pub proof fn lemma_div_bounds(n: int, d: int)
    requires
        n >= 0,
        d >= 1,
    ensures
        n / d >= 0,
        d * (n / d) <= n,
        n < d * (n / d) + d,
{
    lemma_fundamental_div_mod(n, d);
    assert(0 <= n % d < d) by (nonlinear_arith)
        requires
            n >= 0,
            d >= 1,
    ;
    if n / d < 0 {
        assert(d * (n / d) + n % d < 0) by (nonlinear_arith)
            requires
                d >= 1,
                n / d <= -1,
                n % d < d,
        ;
    }
}

/// Division by a positive divisor is monotone in the dividend.
pub proof fn lemma_div_mono(a: int, b: int, d: int)
    requires
        a <= b,
        d >= 1,
    ensures
        a / d <= b / d,
{
    lemma_div_is_ordered(a, b, d);
}

/// `(m * d) / d == m`.
pub proof fn lemma_div_exact(m: int, d: int)
    requires
        d >= 1,
    ensures
        (m * d) / d == m,
{
    lemma_div_multiples_vanish(m, d);
    assert(d * m == m * d) by (nonlinear_arith);
}

/// Integer square root: `r` is the floor of the square root of `n`.
pub fn isqrt(n: u64) -> (r: u64)
    ensures
        r == sqrt_floor(n as int),
        r * r <= n,
        (n as int) < (r + 1) * (r + 1),
{
    let mut lo: u64 = 0;
    let mut hi: u64 = 4294967296;
    proof {
        assert((hi as int) * (hi as int) > n as int) by (nonlinear_arith)
            requires
                hi == 4294967296u64,
                n <= 0xffff_ffff_ffff_ffffu64,
        ;
    }
    while lo + 1 < hi
        invariant
            lo < hi <= 4294967296,
            (lo as int) * (lo as int) <= n as int,
            (n as int) < (hi as int) * (hi as int),
        decreases hi - lo,
    {
        let mid: u64 = lo + (hi - lo) / 2;
        proof {
            assert(mid as int * mid as int <= 4294967296int * 4294967296int)
                by (nonlinear_arith)
                requires
                    0 <= mid as int <= 4294967296int,
            ;
        }
        if (mid as u128) * (mid as u128) <= n as u128 {
            lo = mid;
        } else {
            hi = mid;
        }
    }
    proof {
        lemma_sqrt_floor_unique(n as int, lo as int);
    }
    lo
}

/// Truncating scaled product: `v * num / den`, computed on magnitudes so
/// that the rounding direction is toward zero for either sign of `v`.
pub fn scale_div(v: i64, num: i64, den: i64) -> (r: i64)
    requires
        num >= 0,
        den >= 1,
        -(i64::MAX as int) <= v,
        v * num <= i64::MAX,
        -(i64::MAX as int) <= v * num,
    ensures
        r == div_trunc(v * num, den as int),
        v >= 0 ==> 0 <= r <= v * num,
        v < 0 ==> v * num <= r <= 0,
{
    let mag: u64 = if v >= 0 {
        v as u64
    } else {
        (-v) as u64
    };
    proof {
        assert(mag as int * num as int == if v >= 0 {
            v * num
        } else {
            -(v * num)
        }) by (nonlinear_arith)
            requires
                mag == if v >= 0 {
                    v as int
                } else {
                    -(v as int)
                },
        ;
    }
    let prod: u64 = mag * (num as u64);
    let q: u64 = prod / (den as u64);
    proof {
        lemma_div_bounds(prod as int, den as int);
        assert(prod as int <= prod as int * den as int) by (nonlinear_arith)
            requires
                den >= 1,
                prod >= 0,
        ;
        lemma_div_mono(prod as int, prod as int * den as int, den as int);
        lemma_div_exact(prod as int, den as int);
    }
    if v >= 0 {
        q as i64
    } else {
        -(q as i64)
    }
}

/// Linear interpolation `(1 - t) * a + t * b` with `t` a fraction of `UNIT`,
/// each product truncated toward zero.
pub fn lerp(a: i64, b: i64, t: i64) -> (r: i64)
    requires
        0 <= t <= UNIT,
        -0x2000_0000_0000i64 <= a <= 0x2000_0000_0000i64,
        -0x2000_0000_0000i64 <= b <= 0x2000_0000_0000i64,
    ensures
        r == div_trunc(a * (UNIT - t), UNIT as int) + div_trunc(b * t, UNIT as int),
{
    proof {
        assert(a * (UNIT - t) <= 0x2000_0000_0000i64 * 65536
            && -(0x2000_0000_0000i64 * 65536) <= a * (UNIT - t)
            && b * t <= 0x2000_0000_0000i64 * 65536
            && -(0x2000_0000_0000i64 * 65536) <= b * t) by (nonlinear_arith)
            requires
                0 <= t <= 65536,
                0 <= UNIT - t <= 65536,
                -0x2000_0000_0000i64 <= a <= 0x2000_0000_0000i64,
                -0x2000_0000_0000i64 <= b <= 0x2000_0000_0000i64,
                UNIT == 65536i64,
        ;
    }
    let left_part: i64 = scale_div(a, UNIT - t, UNIT);
    let right_part: i64 = scale_div(b, t, UNIT);
    left_part + right_part
}

/// Linear interpolation in the `a + (b - a) * t` form, truncated toward
/// zero; the result never leaves the closed interval between `a` and `b`.
pub fn lerp2(a: i64, b: i64, t: i64) -> (r: i64)
    requires
        0 <= t <= UNIT,
        -0x2000_0000_0000i64 <= a <= 0x2000_0000_0000i64,
        -0x2000_0000_0000i64 <= b <= 0x2000_0000_0000i64,
    ensures
        r == a + div_trunc((b - a) * t, UNIT as int),
        a <= b ==> a <= r <= b,
        b <= a ==> b <= r <= a,
{
    let diff: i64 = b - a;
    proof {
        assert(diff * t <= 0x4000_0000_0000i64 * 65536
            && -(0x4000_0000_0000i64 * 65536) <= diff * t) by (nonlinear_arith)
            requires
                0 <= t <= 65536,
                -0x4000_0000_0000i64 <= diff <= 0x4000_0000_0000i64,
        ;
    }
    let moved: i64 = scale_div(diff, t, UNIT);
    proof {
        if diff >= 0 {
            assert(diff * t <= diff * 65536) by (nonlinear_arith)
                requires
                    0 <= t <= 65536,
                    diff >= 0,
            ;
            lemma_div_mono(diff * t, diff * 65536, 65536);
            lemma_div_exact(diff as int, 65536);
        } else {
            assert((-diff) * t == -(diff * t) && (-diff) * t <= (-diff) * 65536)
                by (nonlinear_arith)
                requires
                    0 <= t <= 65536,
                    diff < 0,
            ;
            lemma_div_mono((-diff) * t, (-diff) * 65536, 65536);
            lemma_div_exact((-diff) as int, 65536);
            lemma_div_bounds((-diff) * t, 65536);
            assert(moved >= diff);
        }
    }
    a + moved
}

} // verus!
