//! Fixed-point arithmetic.
//!
//! Every quantity of the simulation is an integer count of millionths: a
//! coordinate of 300 court units is `300 * ONE`, a direction component of 0.8 is
//! `800_000`, and a duration of one second is `ONE` microseconds. Speeds are the
//! exception: they are whole court units per second.
//!
//! All rounding is toward zero, so that motion up and motion down are mirror
//! images of each other.

use vstd::arithmetic::div_mod::lemma_fundamental_div_mod;
use vstd::prelude::*;

verus! {

/// The representation of 1.
pub const ONE: i64 = 1_000_000;

/// The sign of `v`: -1, 0 or 1.
pub open spec fn signum(v: int) -> int {
    if v > 0 {
        1
    } else if v < 0 {
        -1
    } else {
        0
    }
}

/// The absolute value of `v`.
pub open spec fn magnitude(v: int) -> int {
    if v < 0 {
        -v
    } else {
        v
    }
}

/// `v` limited to the interval from `lo` to `hi`.
pub open spec fn clamp(v: int, lo: int, hi: int) -> int
    recommends
        lo <= hi,
{
    if v < lo {
        lo
    } else if v > hi {
        hi
    } else {
        v
    }
}

/// The quotient of `a` by a positive `b`, rounded toward zero.
pub open spec fn trunc_div(a: int, b: int) -> int
    recommends
        b > 0,
{
    if a >= 0 {
        a / b
    } else {
        -((-a) / b)
    }
}

/// The distance covered in `dt` microseconds at `speed` units per second
/// along an axis on which the motion has the component `factor`.
pub open spec fn travel(factor: int, speed: int, dt: int) -> int {
    trunc_div(factor * speed * dt, ONE as int)
}

/// Whether `r` is the square root of `q`, rounded down.
pub open spec fn is_sqrt_floor(q: int, r: int) -> bool {
    0 <= r && r * r <= q < (r + 1) * (r + 1)
}

/// The square root of a non-negative `q`, rounded down.
pub open spec fn isqrt(q: int) -> int
    recommends
        q >= 0,
{
    choose|r: int| is_sqrt_floor(q, r)
}

/// A quotient rounded toward zero is less than one divisor away from the
/// dividend, and never on the other side of zero.
pub proof fn lemma_trunc_div(a: int, b: int)
    requires
        b > 0,
    ensures
        magnitude(a - trunc_div(a, b) * b) < b,
        a >= 0 ==> 0 <= trunc_div(a, b) * b <= a,
        a <= 0 ==> a <= trunc_div(a, b) * b <= 0,
        trunc_div(-a, b) == -trunc_div(a, b),
{
    let m: int = magnitude(a);
    lemma_fundamental_div_mod(m, b);
    assert(b * (m / b) == (m / b) * b) by (nonlinear_arith);
    assert((-(m / b)) * b == -((m / b) * b)) by (nonlinear_arith);
    if m == 0 {
        assert(0int / b == 0) by (nonlinear_arith)
            requires
                b > 0,
        ;
    }
}

/// The distance covered is the product of component, speed and time, less
/// what rounding toward zero takes away: under a millionth of a unit.
pub proof fn lemma_travel_is_accurate(factor: int, speed: int, dt: int)
    ensures
        magnitude(factor * speed * dt - travel(factor, speed, dt) * ONE) < ONE,
        travel(-factor, speed, dt) == -travel(factor, speed, dt),
{
    lemma_trunc_div(factor * speed * dt, ONE as int);
    assert((-factor) * speed * dt == -(factor * speed * dt)) by (nonlinear_arith);
}

/// How far something can get whose direction has no component beyond 2: no
/// farther than twice its speed allows.
pub proof fn lemma_travel_bound(factor: int, speed: int, dt: int)
    requires
        -2 * ONE <= factor <= 2 * ONE,
        0 <= speed,
        0 <= dt,
    ensures
        -2 * (speed * dt) <= travel(factor, speed, dt) <= 2 * (speed * dt),
{
    let m: int = speed * dt;
    assert(m >= 0) by (nonlinear_arith)
        requires
            m == speed * dt,
            0 <= speed,
            0 <= dt,
    ;
    let p: int = factor * speed * dt;
    assert(p == factor * m) by (nonlinear_arith)
        requires
            p == factor * speed * dt,
            m == speed * dt,
    ;
    assert(-2_000_000 * m <= p <= 2_000_000 * m) by (nonlinear_arith)
        requires
            p == factor * m,
            m >= 0,
            -2_000_000 <= factor <= 2_000_000,
    ;
}

/// Squaring keeps the order of non-negative numbers.
pub proof fn lemma_square_monotonic(a: int, b: int)
    by (nonlinear_arith)
    requires
        0 <= a <= b,
    ensures
        a * a <= b * b,
{
}

/// Squaring keeps the strict order of non-negative numbers.
pub proof fn lemma_square_strictly_monotonic(a: int, b: int)
    by (nonlinear_arith)
    requires
        0 <= a < b,
    ensures
        a * a < b * b,
{
}

/// Among non-negative numbers, the smaller square belongs to the smaller number.
pub proof fn lemma_square_order(a: int, b: int)
    requires
        0 <= a,
        0 <= b,
        a * a < b * b,
    ensures
        a < b,
{
    if a >= b {
        lemma_square_monotonic(b, a);
    }
}

/// A number has only one rounded-down square root.
pub proof fn lemma_isqrt_unique(q: int, r: int)
    requires
        is_sqrt_floor(q, r),
    ensures
        isqrt(q) == r,
{
    let s = isqrt(q);
    assert(is_sqrt_floor(q, s));
    if s < r {
        lemma_square_monotonic(s + 1, r);
    } else if r < s {
        lemma_square_monotonic(r + 1, s);
    }
}

/// Every non-negative number has a rounded-down square root.
pub proof fn lemma_isqrt_exists(q: int)
    requires
        q >= 0,
    ensures
        is_sqrt_floor(q, isqrt(q)),
    decreases q,
{
    if q == 0 {
        assert(is_sqrt_floor(0, 0));
    } else {
        lemma_isqrt_exists(q - 1);
        let r = isqrt(q - 1);
        if (r + 1) * (r + 1) <= q {
            assert((r + 2) * (r + 2) > (r + 1) * (r + 1)) by (nonlinear_arith)
                requires
                    r >= 0,
            ;
            assert(is_sqrt_floor(q, r + 1));
        } else {
            assert(is_sqrt_floor(q, r));
        }
    }
}

/// Limits `v` to the interval from `lo` to `hi`.
pub fn clamp_to(v: i128, lo: i64, hi: i64) -> (r: i64)
    requires
        lo <= hi,
    ensures
        r == clamp(v as int, lo as int, hi as int),
{
    if v < lo as i128 {
        lo
    } else if v > hi as i128 {
        hi
    } else {
        v as i64
    }
}

/// Computes the distance covered in `dt` microseconds at `speed` units per
/// second along an axis on which the motion has the component `factor`.
pub fn travel_distance(factor: i64, speed: u32, dt: u32) -> (d: i128)
    ensures
        d == travel(factor as int, speed as int, dt as int),
{
    assert(0 <= speed * dt <= 0xffff_fffe_0000_0001) by (nonlinear_arith)
        requires
            0 <= speed <= 0xffff_ffff,
            0 <= dt <= 0xffff_ffff,
    ;
    let rate: u64 = speed as u64 * dt as u64;
    assert(-0x8000_0000_0000_0000 * 0xffff_fffe_0000_0001 <= factor * rate
        <= 0x8000_0000_0000_0000 * 0xffff_fffe_0000_0001) by (nonlinear_arith)
        requires
            0 <= rate <= 0xffff_fffe_0000_0001,
            -0x8000_0000_0000_0000 <= factor <= 0x8000_0000_0000_0000,
    ;
    let product: i128 = factor as i128 * rate as i128;
    assert(product == factor * speed * dt) by (nonlinear_arith)
        requires
            product == factor * rate,
            rate == speed * dt,
    ;
    product / ONE as i128
}

/// Computes the square root of `q`, rounded down.
pub fn integer_sqrt(q: u128) -> (r: u64)
    ensures
        r == isqrt(q as int),
        is_sqrt_floor(q as int, r as int),
{
    let mut lo: u128 = 0;
    let mut hi: u128 = 0x1_0000_0000_0000_0000;
    while hi - lo > 1
        invariant
            lo < hi <= 0x1_0000_0000_0000_0000,
            lo * lo <= q < hi * hi,
        decreases hi - lo,
    {
        let mid: u128 = lo + (hi - lo) / 2;
        assert(mid * mid <= 0xffff_ffff_ffff_ffff * 0xffff_ffff_ffff_ffff) by (nonlinear_arith)
            requires
                0 <= mid <= 0xffff_ffff_ffff_ffff,
        ;
        if mid * mid <= q {
            lo = mid;
        } else {
            hi = mid;
        }
    }
    proof {
        lemma_isqrt_unique(q as int, lo as int);
    }
    lo as u64
}

} // verus!
