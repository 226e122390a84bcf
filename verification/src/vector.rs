//! Points and directions in the plane, in fixed point.

use crate::fixed::{
    integer_sqrt, is_sqrt_floor, isqrt, lemma_isqrt_exists, lemma_square_monotonic,
    lemma_square_order, magnitude, trunc_div, ONE,
};
use vstd::arithmetic::div_mod::lemma_fundamental_div_mod;
use vstd::prelude::*;

verus! {

/// The largest magnitude of a component that [`Vector::normalize`] accepts:
/// one million court units.
pub const NORMALIZE_LIMIT: i64 = 1_000_000_000_000;

/// How far the squared length of a unit direction may be from `ONE * ONE`.
/// Within it, the length itself is within two millionths of 1.
pub const UNIT_TOLERANCE: i64 = 4_000_000;

/// A point or a direction: two fixed-point coordinates.
#[derive(Clone, Copy, Debug, PartialEq, Eq, Structural)]
pub struct Vector {
    pub x: i64,
    pub y: i64,
}

/// The mathematical value of a [`Vector`].
pub struct VectorView {
    pub x: int,
    pub y: int,
}

impl View for Vector {
    type V = VectorView;

    open spec fn view(&self) -> VectorView {
        VectorView { x: self.x as int, y: self.y as int }
    }
}

impl VectorView {
    /// The square of the length.
    pub open spec fn norm_sq(self) -> int {
        self.x * self.x + self.y * self.y
    }

    /// Whether this is the zero vector.
    pub open spec fn is_zero(self) -> bool {
        self.x == 0 && self.y == 0
    }

    /// Whether the length is 1, as far as fixed point can tell.
    pub open spec fn is_unit(self) -> bool {
        ONE * ONE - UNIT_TOLERANCE <= self.norm_sq() <= ONE * ONE + UNIT_TOLERANCE
    }

    /// Whether both components are small enough to be normalized.
    pub open spec fn normalizable(self) -> bool {
        &&& -NORMALIZE_LIMIT <= self.x <= NORMALIZE_LIMIT
        &&& -NORMALIZE_LIMIT <= self.y <= NORMALIZE_LIMIT
    }

    /// The length, in units of a millionth of a millionth, rounded down.
    pub open spec fn fine_length(self) -> int {
        isqrt(self.norm_sq() * ONE * ONE)
    }

    /// The vector of length 1 in the same direction. Each component is the
    /// quotient of the component by the length, rounded toward zero.
    pub open spec fn normalized(self) -> VectorView
        recommends
            !self.is_zero(),
    {
        VectorView {
            x: trunc_div(self.x * ONE * ONE, self.fine_length()),
            y: trunc_div(self.y * ONE * ONE, self.fine_length()),
        }
    }

    /// The same vector with its vertical component reversed.
    pub open spec fn flip_y(self) -> VectorView {
        VectorView { x: self.x, y: -self.y }
    }

    /// The cross product with `other`: zero exactly when the two lie on one
    /// line through the origin.
    pub open spec fn cross(self, other: VectorView) -> int {
        self.x * other.y - self.y * other.x
    }
}

/// What a quotient rounded down says about the dividend.
proof fn lemma_quotient_bounds(p: int, n: int)
    requires
        0 <= p,
        0 < n,
    ensures
        0 <= p / n,
        (p / n) * n <= p < (p / n + 1) * n,
{
    lemma_fundamental_div_mod(p, n);
    assert((p / n) * n == n * (p / n)) by (nonlinear_arith);
    assert((p / n + 1) * n == n * (p / n) + n) by (nonlinear_arith);
    assert(0 <= p / n) by (nonlinear_arith)
        requires
            0 <= p,
            0 < n,
    ;
}

/// The fine length of a vector that is not zero is at least `ONE`, and is the
/// rounded-down root that its definition names.
pub proof fn lemma_fine_length(v: VectorView)
    requires
        !v.is_zero(),
    ensures
        v.fine_length() >= ONE,
        is_sqrt_floor(v.norm_sq() * ONE * ONE, v.fine_length()),
{
    let q: int = v.norm_sq() * ONE * ONE;
    assert(v.norm_sq() >= 1) by (nonlinear_arith)
        requires
            v.norm_sq() == v.x * v.x + v.y * v.y,
            v.x != 0 || v.y != 0,
    ;
    assert(q >= ONE * ONE) by (nonlinear_arith)
        requires
            q == v.norm_sq() * ONE * ONE,
            v.norm_sq() >= 1,
    ;
    lemma_isqrt_exists(q);
    let n: int = v.fine_length();
    if n + 1 <= ONE {
        lemma_square_monotonic(n + 1, ONE as int);
    }
}

/// The squared length of a quotient vector is at most `d * d + 2 * d`.
proof fn lemma_unit_upper(p: int, r: int, n: int, a: int, b: int, d: int)
    requires
        0 < d <= n,
        0 <= a,
        0 <= b,
        a * n <= p,
        b * n <= r,
        p * p + r * r < (n + 1) * (n + 1) * (d * d),
    ensures
        a * a + b * b <= d * d + 2 * d,
{
    let s: int = a * a + b * b;
    if s >= (d + 1) * (d + 1) {
        assert((a * n) * (a * n) <= p * p) by {
            assert(0 <= a * n) by (nonlinear_arith)
                requires
                    0 <= a,
                    0 < n,
            ;
            lemma_square_monotonic(a * n, p);
        }
        assert((b * n) * (b * n) <= r * r) by {
            assert(0 <= b * n) by (nonlinear_arith)
                requires
                    0 <= b,
                    0 < n,
            ;
            lemma_square_monotonic(b * n, r);
        }
        assert((a * n) * (a * n) + (b * n) * (b * n) == s * (n * n)) by (nonlinear_arith)
            requires
                s == a * a + b * b,
        ;
        assert((n * (d + 1)) * (n * (d + 1)) <= s * (n * n)) by (nonlinear_arith)
            requires
                s >= (d + 1) * (d + 1),
                n > 0,
        ;
        assert((n + 1) * (n + 1) * (d * d) == ((n + 1) * d) * ((n + 1) * d))
            by (nonlinear_arith);
        assert(0 <= n * (d + 1) && 0 <= (n + 1) * d) by (nonlinear_arith)
            requires
                0 < d <= n,
        ;
        lemma_square_order(n * (d + 1), (n + 1) * d);
        assert(n * (d + 1) == n * d + n && (n + 1) * d == n * d + d) by (nonlinear_arith);
        assert(false);
    }
    assert((d + 1) * (d + 1) == d * d + 2 * d + 1) by (nonlinear_arith);
}

/// The squared length of a quotient vector is more than
/// `d * d - 2 * (a + b) - 2`.
proof fn lemma_unit_lower(p: int, r: int, n: int, a: int, b: int, d: int)
    requires
        0 < d,
        0 < n,
        0 <= a,
        0 <= b,
        0 <= p < (a + 1) * n,
        0 <= r < (b + 1) * n,
        n * n * (d * d) <= p * p + r * r,
    ensures
        a * a + b * b + 2 * (a + b) + 2 > d * d,
{
    let t: int = (a + 1) * (a + 1) + (b + 1) * (b + 1);
    assert(p * p < ((a + 1) * n) * ((a + 1) * n)) by (nonlinear_arith)
        requires
            0 <= p < (a + 1) * n,
    ;
    assert(r * r < ((b + 1) * n) * ((b + 1) * n)) by (nonlinear_arith)
        requires
            0 <= r < (b + 1) * n,
    ;
    assert(((a + 1) * n) * ((a + 1) * n) + ((b + 1) * n) * ((b + 1) * n) == t * (n * n))
        by (nonlinear_arith)
        requires
            t == (a + 1) * (a + 1) + (b + 1) * (b + 1),
    ;
    assert(n * n * (d * d) < t * (n * n));
    assert(d * d < t) by (nonlinear_arith)
        requires
            n * n * (d * d) < t * (n * n),
            0 < n,
    ;
    assert(t == a * a + b * b + 2 * (a + b) + 2) by (nonlinear_arith)
        requires
            t == (a + 1) * (a + 1) + (b + 1) * (b + 1),
    ;
}

/// Two non-negative numbers whose squares add up to little are small together.
proof fn lemma_sum_bound(a: int, b: int, d: int)
    by (nonlinear_arith)
    requires
        0 <= a,
        0 <= b,
        16 < d,
        d % 2 == 0,
        a * a + b * b <= d * d + 2 * d,
    ensures
        2 * (a + b) <= 3 * d,
{
}

/// The components of a normalized vector: each has the sign that it had
/// before, and the magnitude that it had before divided by the length.
pub proof fn lemma_normalized_components(v: VectorView)
    requires
        !v.is_zero(),
    ensures
        magnitude(v.normalized().x) == (magnitude(v.x) * ONE * ONE) / v.fine_length(),
        magnitude(v.normalized().y) == (magnitude(v.y) * ONE * ONE) / v.fine_length(),
        v.x >= 0 ==> v.normalized().x >= 0,
        v.x <= 0 ==> v.normalized().x <= 0,
        v.y >= 0 ==> v.normalized().y >= 0,
        v.y <= 0 ==> v.normalized().y <= 0,
{
    let n: int = v.fine_length();
    lemma_fine_length(v);
    let p: int = magnitude(v.x) * ONE * ONE;
    let r: int = magnitude(v.y) * ONE * ONE;
    assert(p >= 0 && r >= 0) by (nonlinear_arith)
        requires
            p == magnitude(v.x) * ONE * ONE,
            r == magnitude(v.y) * ONE * ONE,
    ;
    lemma_quotient_bounds(p, n);
    lemma_quotient_bounds(r, n);
    assert(v.x * ONE * ONE == if v.x >= 0 {
        p
    } else {
        -p
    }) by (nonlinear_arith)
        requires
            p == magnitude(v.x) * ONE * ONE,
    ;
    assert(v.y * ONE * ONE == if v.y >= 0 {
        r
    } else {
        -r
    }) by (nonlinear_arith)
        requires
            r == magnitude(v.y) * ONE * ONE,
    ;
    assert(v.x == 0 ==> p == 0) by (nonlinear_arith)
        requires
            p == magnitude(v.x) * ONE * ONE,
    ;
    assert(v.y == 0 ==> r == 0) by (nonlinear_arith)
        requires
            r == magnitude(v.y) * ONE * ONE,
    ;
}

/// A vector that is not zero has a normalized vector of length 1, as far as
/// fixed point can tell.
pub proof fn lemma_normalized_is_unit(v: VectorView)
    requires
        !v.is_zero(),
    ensures
        v.normalized().is_unit(),
{
    let d: int = ONE as int;
    let n: int = v.fine_length();
    lemma_fine_length(v);
    lemma_normalized_components(v);
    let p: int = magnitude(v.x) * d * d;
    let r: int = magnitude(v.y) * d * d;
    assert(p >= 0 && r >= 0) by (nonlinear_arith)
        requires
            p == magnitude(v.x) * d * d,
            r == magnitude(v.y) * d * d,
    ;
    let a: int = p / n;
    let b: int = r / n;
    lemma_quotient_bounds(p, n);
    lemma_quotient_bounds(r, n);
    let w: VectorView = v.normalized();
    assert(w.norm_sq() == a * a + b * b) by (nonlinear_arith)
        requires
            w.norm_sq() == w.x * w.x + w.y * w.y,
            magnitude(w.x) == a,
            magnitude(w.y) == b,
    ;
    let q: int = v.norm_sq() * d * d;
    assert(p * p + r * r == q * (d * d)) by (nonlinear_arith)
        requires
            p == magnitude(v.x) * d * d,
            r == magnitude(v.y) * d * d,
            q == v.norm_sq() * d * d,
            v.norm_sq() == v.x * v.x + v.y * v.y,
    ;
    assert(q * (d * d) < (n + 1) * (n + 1) * (d * d)) by (nonlinear_arith)
        requires
            q < (n + 1) * (n + 1),
            d > 0,
    ;
    assert(n * n * (d * d) <= q * (d * d)) by (nonlinear_arith)
        requires
            n * n <= q,
            d > 0,
    ;
    lemma_unit_upper(p, r, n, a, b, d);
    lemma_unit_lower(p, r, n, a, b, d);
    lemma_sum_bound(a, b, d);
}

/// What is left over when two components are divided by one length measures
/// how far the quotients are from lying on one line with the components.
proof fn lemma_cross_residue(ax: int, ay: int, k: int, n: int, a: int, b: int)
    ensures
        n * (a * ay - b * ax) == (ay * k - b * n) * ax - (ax * k - a * n) * ay,
{
    assert((ay * k - b * n) * ax == ay * k * ax - b * n * ax) by (nonlinear_arith);
    assert((ax * k - a * n) * ay == ax * k * ay - a * n * ay) by (nonlinear_arith);
    assert(ay * k * ax == ax * k * ay) by (nonlinear_arith);
    assert(n * (a * ay - b * ax) == a * n * ay - b * n * ax) by (nonlinear_arith);
}

/// A normalized vector points where the vector pointed before, as nearly as
/// whole millionths allow: the cross product of the two is no larger than the
/// larger component of the vector, while their lengths multiply to a million
/// times the length of the vector.
pub proof fn lemma_normalized_is_parallel(v: VectorView)
    requires
        !v.is_zero(),
    ensures
        magnitude(v.normalized().cross(v)) <= magnitude(v.x) || magnitude(v.normalized().cross(v))
            <= magnitude(v.y),
{
    let n: int = v.fine_length();
    lemma_fine_length(v);
    lemma_normalized_components(v);
    let ax: int = magnitude(v.x);
    let ay: int = magnitude(v.y);
    let p: int = ax * ONE * ONE;
    let r: int = ay * ONE * ONE;
    assert(p >= 0 && r >= 0) by (nonlinear_arith)
        requires
            p == ax * ONE * ONE,
            r == ay * ONE * ONE,
            ax >= 0,
            ay >= 0,
    ;
    let a: int = p / n;
    let b: int = r / n;
    lemma_quotient_bounds(p, n);
    lemma_quotient_bounds(r, n);
    let ea: int = p - a * n;
    let eb: int = r - b * n;
    assert((a + 1) * n == a * n + n && (b + 1) * n == b * n + n) by (nonlinear_arith);
    let c: int = a * ay - b * ax;
    let k: int = ONE * ONE;
    assert(p == ax * k && r == ay * k) by (nonlinear_arith)
        requires
            p == ax * ONE * ONE,
            r == ay * ONE * ONE,
            k == ONE * ONE,
    ;
    lemma_cross_residue(ax, ay, k, n, a, b);
    assert(-ay <= c <= ax) by (nonlinear_arith)
        requires
            n * c == eb * ax - ea * ay,
            0 <= ea < n,
            0 <= eb < n,
            0 <= ax,
            0 <= ay,
            0 < n,
    ;
    let w: VectorView = v.normalized();
    assert(w.cross(v) == c || w.cross(v) == -c) by (nonlinear_arith)
        requires
            w.cross(v) == w.x * v.y - w.y * v.x,
            c == a * ay - b * ax,
            magnitude(w.x) == a,
            magnitude(w.y) == b,
            magnitude(v.x) == ax,
            magnitude(v.y) == ay,
            v.x >= 0 ==> w.x >= 0,
            v.x <= 0 ==> w.x <= 0,
            v.y >= 0 ==> w.y >= 0,
            v.y <= 0 ==> w.y <= 0,
    ;
}

/// No component of a unit vector is longer than the vector.
pub proof fn lemma_unit_components_bounded(v: VectorView)
    requires
        v.is_unit(),
    ensures
        -2 * ONE < v.x < 2 * ONE,
        -2 * ONE < v.y < 2 * ONE,
{
    assert(-2 * ONE < v.x < 2 * ONE && -2 * ONE < v.y < 2 * ONE) by (nonlinear_arith)
        requires
            v.x * v.x + v.y * v.y <= 1_000_000 * 1_000_000 + 4_000_000,
    ;
}

/// Reversing the vertical component leaves the length as it is.
pub proof fn lemma_flip_keeps_length(v: VectorView)
    ensures
        v.flip_y().norm_sq() == v.norm_sq(),
{
    assert((-v.y) * (-v.y) == v.y * v.y) by (nonlinear_arith);
}

impl Vector {
    /// Makes a vector from its two coordinates.
    pub fn new(x: i64, y: i64) -> (v: Vector)
        ensures
            v.x == x,
            v.y == y,
    {
        Vector { x, y }
    }

    /// Tells whether the length is 1, as far as fixed point can tell.
    pub fn is_unit(&self) -> (r: bool)
        ensures
            r == self@.is_unit(),
    {
        let x: i128 = self.x as i128;
        let y: i128 = self.y as i128;
        let ax: u128 = if x < 0 {
            (-x) as u128
        } else {
            x as u128
        };
        let ay: u128 = if y < 0 {
            (-y) as u128
        } else {
            y as u128
        };
        assert(ax * ax <= 0x8000_0000_0000_0000 * 0x8000_0000_0000_0000) by (nonlinear_arith)
            requires
                0 <= ax <= 0x8000_0000_0000_0000,
        ;
        assert(ay * ay <= 0x8000_0000_0000_0000 * 0x8000_0000_0000_0000) by (nonlinear_arith)
            requires
                0 <= ay <= 0x8000_0000_0000_0000,
        ;
        let norm_sq: u128 = ax * ax + ay * ay;
        assert(norm_sq == self@.norm_sq()) by (nonlinear_arith)
            requires
                norm_sq == ax * ax + ay * ay,
                ax == magnitude(self.x as int),
                ay == magnitude(self.y as int),
                self@.norm_sq() == self.x * self.x + self.y * self.y,
        ;
        let exact: u128 = 1_000_000_000_000;
        assert(exact == ONE * ONE);
        exact - UNIT_TOLERANCE as u128 <= norm_sq && norm_sq <= exact + UNIT_TOLERANCE as u128
    }

    /// Scales the vector to length 1. The zero vector has no direction and
    /// gives `None`.
    pub fn normalize(&self) -> (unit: Option<Vector>)
        requires
            self@.normalizable(),
        ensures
            self@.is_zero() ==> unit.is_none(),
            !self@.is_zero() ==> unit.is_some() && unit.unwrap()@ == self@.normalized(),
            unit.is_some() ==> unit.unwrap()@.is_unit(),
    {
        if self.x == 0 && self.y == 0 {
            return None;
        }
        let ax: u128 = if self.x < 0 {
            (-self.x) as u128
        } else {
            self.x as u128
        };
        let ay: u128 = if self.y < 0 {
            (-self.y) as u128
        } else {
            self.y as u128
        };
        let scale: u128 = 1_000_000_000_000;
        assert(scale == ONE * ONE);
        proof {
            lemma_square_monotonic(ax as int, NORMALIZE_LIMIT as int);
            lemma_square_monotonic(ay as int, NORMALIZE_LIMIT as int);
            lemma_fine_length(self@);
            lemma_normalized_is_unit(self@);
        }
        let norm_sq: u128 = ax * ax + ay * ay;
        assert(norm_sq == self@.norm_sq()) by (nonlinear_arith)
            requires
                norm_sq == ax * ax + ay * ay,
                ax == magnitude(self.x as int),
                ay == magnitude(self.y as int),
                self@.norm_sq() == self.x * self.x + self.y * self.y,
        ;
        assert(norm_sq * scale <= 2_000_000_000_000_000_000_000_000 * 1_000_000_000_000)
            by (nonlinear_arith)
            requires
                norm_sq <= 2_000_000_000_000_000_000_000_000,
                scale == 1_000_000_000_000,
        ;
        assert(norm_sq * scale == self@.norm_sq() * ONE * ONE) by (nonlinear_arith)
            requires
                norm_sq == self@.norm_sq(),
                scale == ONE * ONE,
        ;
        let length: u128 = integer_sqrt(norm_sq * scale) as u128;
        assert(length == self@.fine_length());
        assert(ax * scale <= 1_000_000_000_000 * 1_000_000_000_000) by (nonlinear_arith)
            requires
                ax <= 1_000_000_000_000,
                scale == 1_000_000_000_000,
        ;
        assert(ay * scale <= 1_000_000_000_000 * 1_000_000_000_000) by (nonlinear_arith)
            requires
                ay <= 1_000_000_000_000,
                scale == 1_000_000_000_000,
        ;
        let ux: u128 = ax * scale / length;
        let uy: u128 = ay * scale / length;
        proof {
            lemma_normalized_components(self@);
            lemma_unit_components_bounded(self@.normalized());
            assert(ax * scale == magnitude(self.x as int) * ONE * ONE) by (nonlinear_arith)
                requires
                    ax == magnitude(self.x as int),
                    scale == ONE * ONE,
            ;
            assert(ay * scale == magnitude(self.y as int) * ONE * ONE) by (nonlinear_arith)
                requires
                    ay == magnitude(self.y as int),
                    scale == ONE * ONE,
            ;
        }
        let x: i64 = if self.x < 0 {
            -(ux as i64)
        } else {
            ux as i64
        };
        let y: i64 = if self.y < 0 {
            -(uy as i64)
        } else {
            uy as i64
        };
        Some(Vector { x, y })
    }
}

} // verus!
