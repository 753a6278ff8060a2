//! Fixed-point arithmetic on normalized touch coordinates.
//!
//! A normalized length is an integer count of millionths: `UNIT` stands for
//! the full width (or height) of the touch surface.

use vstd::prelude::*;

verus! {

/// The fixed-point value of the normalized length 1.
pub const UNIT: i64 = 1_000_000;

/// The fixed-point value of the normalized length one half: the middle of an
/// axis.
pub const MIDDLE: i64 = 500_000;

/// The absolute value of an integer.
pub open spec fn abs(x: int) -> int {
    if x < 0 {
        -x
    } else {
        x
    }
}

/// `x` limited to the interval from `lo` to `hi`.
pub open spec fn clamp(x: int, lo: int, hi: int) -> int {
    if x < lo {
        lo
    } else if x > hi {
        hi
    } else {
        x
    }
}

/// Whether `v` is a normalized coordinate.
pub open spec fn in_unit(v: int) -> bool {
    0 <= v <= UNIT
}

/// The normalized position of a raw device coordinate on an axis that
/// reports values from `min` to `max`.
pub open spec fn norm_of(raw: int, min: int, max: int) -> int {
    clamp((raw - min) * UNIT / (max - min), 0, UNIT as int)
}

/// The largest `r` with `r * r <= n`.
pub open spec fn isqrt(n: nat) -> nat
    decreases n,
{
    if n == 0 {
        0
    } else {
        let r = isqrt((n - 1) as nat);
        if (r + 1) * (r + 1) <= n {
            r + 1
        } else {
            r
        }
    }
}

/// The Euclidean length of the vector `(dx, dy)`, rounded down.
pub open spec fn length(dx: int, dy: int) -> int {
    isqrt((dx * dx + dy * dy) as nat) as int
}

/// `isqrt(n)` is a root of `n` rounded down.
pub proof fn lemma_isqrt_bounds(n: nat)
    ensures
        isqrt(n) * isqrt(n) <= n < (isqrt(n) + 1) * (isqrt(n) + 1),
    decreases n,
{
    if n == 0 {
        assert(0 * 0 == 0 && (0 + 1) * (0 + 1) == 1) by (nonlinear_arith);
    } else {
        lemma_isqrt_bounds((n - 1) as nat);
        let r = isqrt((n - 1) as nat);
        assert((r + 1 + 1) * (r + 1 + 1) > (r + 1) * (r + 1)) by (nonlinear_arith);
    }
}

/// Only one number is a root of `n` rounded down.
pub proof fn lemma_isqrt_unique(n: nat, r: nat)
    requires
        r * r <= n < (r + 1) * (r + 1),
    ensures
        r == isqrt(n),
{
    lemma_isqrt_bounds(n);
    let s = isqrt(n);
    if r < s {
        assert((r + 1) * (r + 1) <= s * s) by (nonlinear_arith)
            requires
                r + 1 <= s,
        ;
    } else if s < r {
        assert((s + 1) * (s + 1) <= r * r) by (nonlinear_arith)
            requires
                s + 1 <= r,
        ;
    }
}

/// The distance between two integers.
pub fn abs_diff(a: i64, b: i64) -> (d: u64)
    ensures
        d == abs(a - b),
{
    let wide: i128 = a as i128 - b as i128;
    if wide >= 0 {
        wide as u64
    } else {
        (-wide) as u64
    }
}

/// The integer square root.
pub fn int_sqrt(n: u64) -> (r: u64)
    ensures
        r == isqrt(n as nat),
{
    let mut lo: u64 = 0;
    let mut hi: u64 = 0x1_0000_0000;
    assert(0x1_0000_0000u64 * 0x1_0000_0000u64 > n) by (nonlinear_arith);
    while hi - lo > 1
        invariant
            lo < hi <= 0x1_0000_0000,
            lo * lo <= n < hi * hi,
        decreases hi - lo,
    {
        let mid: u64 = lo + (hi - lo) / 2;
        assert(mid * mid < 0x1_0000_0000 * 0x1_0000_0000) by (nonlinear_arith)
            requires
                mid < 0x1_0000_0000,
        ;
        if mid * mid <= n {
            lo = mid;
        } else {
            hi = mid;
        }
    }
    proof {
        lemma_isqrt_unique(n as nat, lo as nat);
    }
    lo
}

/// Maps a raw device coordinate to its normalized position on an axis that
/// reports values from `min` to `max`.
pub fn normalize(raw: i32, min: i64, max: i64) -> (v: i64)
    requires
        i32::MIN <= min < max <= i32::MAX + 1,
    ensures
        v == norm_of(raw as int, min as int, max as int),
        in_unit(v as int),
{
    let width: i64 = max - min;
    let wide: i64 = raw as i64;
    if wide <= min {
        proof {
            lemma_norm_low(raw as int, min as int, max as int);
        }
        0
    } else if wide >= max {
        proof {
            lemma_norm_high(raw as int, min as int, max as int);
        }
        UNIT
    } else {
        let off: i64 = wide - min;
        assert(0 < off * UNIT < 0x1_0000_0000 * 1_000_000) by (nonlinear_arith)
            requires
                0 < off < 0x1_0000_0000,
        ;
        let scaled: i64 = off * UNIT;
        proof {
            lemma_norm_mid(raw as int, min as int, max as int);
        }
        scaled / width
    }
}

proof fn lemma_norm_low(raw: int, min: int, max: int)
    requires
        min < max,
        raw <= min,
    ensures
        norm_of(raw, min, max) == 0,
{
    let w = max - min;
    let n = (raw - min) * UNIT;
    assert(n <= 0) by (nonlinear_arith)
        requires
            raw - min <= 0,
            n == (raw - min) * UNIT,
    ;
    assert(n / w <= 0) by (nonlinear_arith)
        requires
            n <= 0,
            w > 0,
    ;
}

proof fn lemma_norm_high(raw: int, min: int, max: int)
    requires
        min < max,
        raw >= max,
    ensures
        norm_of(raw, min, max) == UNIT,
{
    let w = max - min;
    let n = (raw - min) * UNIT;
    assert(n >= w * UNIT) by (nonlinear_arith)
        requires
            raw - min >= w,
            n == (raw - min) * UNIT,
    ;
    assert(n / w >= UNIT) by (nonlinear_arith)
        requires
            n >= w * UNIT,
            w > 0,
    ;
}

proof fn lemma_norm_mid(raw: int, min: int, max: int)
    requires
        min < raw < max,
    ensures
        0 <= (raw - min) * UNIT / (max - min) <= UNIT,
{
    let w = max - min;
    let n = (raw - min) * UNIT;
    assert(0 <= n <= w * UNIT) by (nonlinear_arith)
        requires
            0 <= raw - min <= w,
            n == (raw - min) * UNIT,
    ;
    assert(0 <= n / w <= UNIT) by (nonlinear_arith)
        requires
            0 <= n <= w * UNIT,
            w > 0,
    ;
}

} // verus!
