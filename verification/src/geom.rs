//! Fixed-point 2D geometry for positions and velocities.
//!
//! One arena unit is `UNIT` = 1000 milli-units, so the playable square
//! [-1.0, 1.0] x [-1.0, 1.0] becomes [-1000, 1000] x [-1000, 1000]. All
//! lengths are compared through their squares, and magnitude clamping uses a
//! verified integer square root, so no floating point is needed anywhere.

use vstd::prelude::*;

verus! {

/// One arena unit, in milli-units.
pub const UNIT: i64 = 1000;

/// Component bound under which all squared-magnitude arithmetic stays inside
/// `i64`: (2 * 10^9)^2 * 2 < i64::MAX.
pub const COORD_BOUND: i64 = 2_000_000_000;

/// A 2D vector in milli-units; a coordinate in the arena, or a velocity in
/// milli-units per second.
#[derive(Copy, Clone, Debug, PartialEq, Eq, Structural)]
pub struct Vector2 {
    pub x: i64,
    pub y: i64,
}

/// Floor of the square root, defined recursively so it is a total function.
pub open spec fn isqrt_spec(n: nat) -> nat
    decreases n,
{
    if n == 0 {
        0
    } else {
        let r = isqrt_spec((n - 1) as nat);
        if (r + 1) * (r + 1) <= n {
            r + 1
        } else {
            r
        }
    }
}

/// `isqrt_spec(n)` really is the floor of the square root of `n`.
pub proof fn lemma_isqrt_spec_bounds(n: nat)
    ensures
        isqrt_spec(n) * isqrt_spec(n) <= n,
        n < (isqrt_spec(n) + 1) * (isqrt_spec(n) + 1),
    decreases n,
{
    if n == 0 {
        assert(isqrt_spec(0) == 0);
        assert(n < (isqrt_spec(n) + 1) * (isqrt_spec(n) + 1)) by (nonlinear_arith)
            requires n == 0 && isqrt_spec(n) == 0,
        ;
    } else {
        lemma_isqrt_spec_bounds((n - 1) as nat);
        let r = isqrt_spec((n - 1) as nat);
        assert(r * r <= n - 1);
        assert(n - 1 < (r + 1) * (r + 1));
        if (r + 1) * (r + 1) <= n {
            assert(isqrt_spec(n) == r + 1);
            assert((r + 1) * (r + 1) + 1 <= (r + 1 + 1) * (r + 1 + 1)) by (nonlinear_arith)
                requires r >= 0,
            ;
            assert(n < (r + 1 + 1) * (r + 1 + 1));
        } else {
            assert(isqrt_spec(n) == r);
        }
    }
}

/// The floor of the square root is determined by its bounding property.
pub proof fn lemma_isqrt_unique(n: nat, r: nat)
    requires
        r * r <= n,
        n < (r + 1) * (r + 1),
    ensures
        r == isqrt_spec(n),
{
    lemma_isqrt_spec_bounds(n);
    let s = isqrt_spec(n);
    if r < s {
        assert((r + 1) * (r + 1) <= s * s) by (nonlinear_arith)
            requires r + 1 <= s,
        ;
    }
    if s < r {
        assert((s + 1) * (s + 1) <= r * r) by (nonlinear_arith)
            requires s + 1 <= r,
        ;
    }
}

/// Truncating (round toward zero) division, matching machine division on
/// signed integers.
pub open spec fn div_trunc(a: int, b: int) -> int
    recommends
        b > 0,
{
    if a >= 0 {
        a / b
    } else {
        -((-a) / b)
    }
}

/// Floor of the square root of `n`, by binary search.
pub fn isqrt(n: u64) -> (r: u64)
    ensures
        r == isqrt_spec(n as nat),
        r * r <= n,
        n < (r + 1) * (r + 1),
        r < 4_294_967_296,
{
    let mut lo: u64 = 0;
    let mut hi: u64 = 4_294_967_296;
    assert((hi as int) * (hi as int) == 0x1_0000_0000_0000_0000);
    while hi - lo > 1
        invariant
            lo < hi <= 4_294_967_296,
            (lo as int) * (lo as int) <= n as int,
            (n as int) < (hi as int) * (hi as int),
        decreases hi - lo,
    {
        let mid = lo + (hi - lo) / 2;
        proof {
            assert(mid as int * mid as int <= 0x1_0000_0000 * 0x1_0000_0000) by (nonlinear_arith)
                requires 0 <= mid <= 0x1_0000_0000,
            ;
        }
        if (mid as u128) * (mid as u128) <= n as u128 {
            lo = mid;
        } else {
            hi = mid;
        }
    }
    proof {
        lemma_isqrt_unique(n as nat, lo as nat);
    }
    lo
}

/// Truncating division shrinks a bounded dividend to a bounded quotient.
pub proof fn lemma_div_trunc_bound(a: int, b: int, bound: int)
    requires
        b > 0,
        0 <= bound,
        -bound <= a <= bound,
    ensures
        -(bound / b) <= div_trunc(a, b) <= bound / b,
{
    if a >= 0 {
        vstd::arithmetic::div_mod::lemma_div_is_ordered(a, bound, b);
        vstd::arithmetic::div_mod::lemma_div_pos_is_pos(a, b);
    } else {
        vstd::arithmetic::div_mod::lemma_div_is_ordered(-a, bound, b);
        vstd::arithmetic::div_mod::lemma_div_pos_is_pos(-a, b);
    }
}

/// Truncating division of `a` by a positive divisor `b`.
pub fn div_trunc_i64(a: i64, b: i64) -> (r: i64)
    requires
        b > 0,
        a > i64::MIN,
    ensures
        r == div_trunc(a as int, b as int),
{
    if a >= 0 {
        let q = (a as u64) / (b as u64);
        q as i64
    } else {
        let q = ((-a) as u64) / (b as u64);
        -(q as i64)
    }
}

impl Vector2 {
    /// The squared magnitude, as a mathematical integer.
    pub open spec fn mag_sq(self) -> int {
        self.x * self.x + self.y * self.y
    }

    /// Both components within [-bound, bound].
    pub open spec fn in_square(self, bound: int) -> bool {
        -bound <= self.x <= bound && -bound <= self.y <= bound
    }

    /// What clamping to magnitude `m` leaves: the vector itself if it is
    /// already short enough, otherwise each component scaled by
    /// `m / magnitude` in truncating fixed-point arithmetic.
    pub open spec fn clamped_spec(self, m: int) -> Vector2 {
        if self.mag_sq() <= m * m {
            self
        } else {
            let mag = isqrt_spec(self.mag_sq() as nat) as int;
            Vector2 { x: div_trunc(self.x * m, mag) as i64, y: div_trunc(self.y * m, mag) as i64 }
        }
    }

    /// The zero vector.
    pub fn new() -> (v: Vector2)
        ensures
            v == (Vector2 { x: 0i64, y: 0i64 }),
    {
        Vector2 { x: 0, y: 0 }
    }

    /// The squared magnitude; exact, with no possibility of overflow thanks
    /// to the component bound.
    pub fn magnitude_squared(&self) -> (r: i64)
        requires
            self.in_square(COORD_BOUND as int),
        ensures
            r == self.mag_sq(),
    {
        proof {
            assert(self.x * self.x <= COORD_BOUND as int * COORD_BOUND as int
                && self.x * self.x >= 0) by (nonlinear_arith)
                requires -COORD_BOUND <= self.x <= COORD_BOUND,
            ;
            assert(self.y * self.y <= COORD_BOUND as int * COORD_BOUND as int
                && self.y * self.y >= 0) by (nonlinear_arith)
                requires -COORD_BOUND <= self.y <= COORD_BOUND,
            ;
        }
        self.x * self.x + self.y * self.y
    }

    /// Component-wise sum.
    pub fn plus(&self, other: Vector2) -> (r: Vector2)
        requires
            i64::MIN <= self.x + other.x <= i64::MAX,
            i64::MIN <= self.y + other.y <= i64::MAX,
        ensures
            r.x == self.x + other.x,
            r.y == self.y + other.y,
    {
        Vector2 { x: self.x + other.x, y: self.y + other.y }
    }

    /// A copy clamped to unit magnitude (one arena unit, `UNIT` milli-units).
    pub fn clamped_to_normal(&self) -> (r: Vector2)
        requires
            self.in_square(COORD_BOUND as int),
        ensures
            r == self.clamped_spec(UNIT as int),
            r.in_square(UNIT as int),
    {
        self.clamped_to(UNIT)
    }

    /// A copy whose magnitude is clamped to at most `m` (up to fixed-point
    /// truncation); vectors already within `m` are returned unchanged.
    /// The result's components always lie within [-m, m].
    pub fn clamped_to(&self, m: i64) -> (r: Vector2)
        requires
            0 <= m <= COORD_BOUND,
            self.in_square(COORD_BOUND as int),
        ensures
            r == self.clamped_spec(m as int),
            r.in_square(m as int),
    {
        let msq = self.magnitude_squared();
        proof {
            assert(m as int * m as int <= COORD_BOUND as int * COORD_BOUND as int
                && m as int * m as int >= 0) by (nonlinear_arith)
                requires 0 <= m <= COORD_BOUND,
            ;
        }
        if msq <= m * m {
            proof {
                assert(self.x * self.x >= 0 && self.y * self.y >= 0) by (nonlinear_arith);
                assert(-m <= self.x <= m) by (nonlinear_arith)
                    requires self.x * self.x <= m * m, m >= 0,
                ;
                assert(-m <= self.y <= m) by (nonlinear_arith)
                    requires self.y * self.y <= m * m, m >= 0,
                ;
            }
            *self
        } else {
            let mag = isqrt(msq as u64);
            proof {
                lemma_component_le_isqrt(*self);
                assert(mag >= 1) by (nonlinear_arith)
                    requires
                        (msq as int) < ((mag as int) + 1) * ((mag as int) + 1),
                        msq as int >= 1,
                        mag >= 0,
                ;
            }
            let rx = scale_component(self.x, m, mag as i64);
            let ry = scale_component(self.y, m, mag as i64);
            proof {
                lemma_scale_bounded(self.x as int, m as int, mag as int);
                lemma_scale_bounded(self.y as int, m as int, mag as int);
            }
            Vector2 { x: rx, y: ry }
        }
    }
}

/// Each component of a vector is at most the square root of the squared
/// magnitude in absolute value.
proof fn lemma_component_le_isqrt(v: Vector2)
    requires
        v.mag_sq() >= 0,
    ensures
        -(isqrt_spec(v.mag_sq() as nat) as int) <= v.x <= isqrt_spec(v.mag_sq() as nat) as int,
        -(isqrt_spec(v.mag_sq() as nat) as int) <= v.y <= isqrt_spec(v.mag_sq() as nat) as int,
{
    let s = v.mag_sq() as nat;
    let r = isqrt_spec(s) as int;
    lemma_isqrt_spec_bounds(s);
    assert(v.x * v.x <= s && v.y * v.y <= s) by (nonlinear_arith)
        requires v.mag_sq() == s,
    ;
    if v.x > r {
        assert((r + 1) * (r + 1) <= v.x * v.x) by (nonlinear_arith)
            requires 0 <= r + 1 <= v.x,
        ;
    }
    if v.x < -r {
        assert((r + 1) * (r + 1) <= v.x * v.x) by (nonlinear_arith)
            requires v.x <= -(r + 1) <= 0,
        ;
    }
    if v.y > r {
        assert((r + 1) * (r + 1) <= v.y * v.y) by (nonlinear_arith)
            requires 0 <= r + 1 <= v.y,
        ;
    }
    if v.y < -r {
        assert((r + 1) * (r + 1) <= v.y * v.y) by (nonlinear_arith)
            requires v.y <= -(r + 1) <= 0,
        ;
    }
}

/// `x * m / mag` stays within [-m, m] when |x| <= mag.
proof fn lemma_scale_bounded(x: int, m: int, mag: int)
    requires
        0 <= m,
        1 <= mag,
        -mag <= x <= mag,
    ensures
        -m <= div_trunc(x * m, mag) <= m,
{
    if x >= 0 {
        assert(x * m <= mag * m) by (nonlinear_arith)
            requires 0 <= x <= mag, 0 <= m,
        ;
        assert(x * m >= 0) by (nonlinear_arith)
            requires x >= 0, m >= 0,
        ;
        assert(x * m / mag <= mag * m / mag) by {
            vstd::arithmetic::div_mod::lemma_div_is_ordered(x * m, mag * m, mag);
        }
        assert(mag * m / mag == m) by {
            vstd::arithmetic::div_mod::lemma_div_multiples_vanish(m, mag);
        }
        assert(x * m / mag >= 0) by {
            vstd::arithmetic::div_mod::lemma_div_pos_is_pos(x * m, mag);
        }
    } else {
        assert((-x) * m <= mag * m) by (nonlinear_arith)
            requires 0 <= -x <= mag, 0 <= m,
        ;
        assert((-x) * m >= 0) by (nonlinear_arith)
            requires -x >= 0, m >= 0,
        ;
        assert(-(x * m) == (-x) * m) by (nonlinear_arith);
        assert((-x) * m / mag <= mag * m / mag) by {
            vstd::arithmetic::div_mod::lemma_div_is_ordered((-x) * m, mag * m, mag);
        }
        assert(mag * m / mag == m) by {
            vstd::arithmetic::div_mod::lemma_div_multiples_vanish(m, mag);
        }
        assert((-x) * m / mag >= 0) by {
            vstd::arithmetic::div_mod::lemma_div_pos_is_pos((-x) * m, mag);
        }
    }
}

/// One clamped component: `x * m / mag`, truncating toward zero.
fn scale_component(x: i64, m: i64, mag: i64) -> (r: i64)
    requires
        0 <= m <= COORD_BOUND,
        1 <= mag <= 4_294_967_296,
        -COORD_BOUND <= x <= COORD_BOUND,
    ensures
        r == div_trunc(x as int * m as int, mag as int),
{
    proof {
        assert(x as int * m as int <= COORD_BOUND as int * COORD_BOUND as int
            && x as int * m as int >= -(COORD_BOUND as int * COORD_BOUND as int))
            by (nonlinear_arith)
            requires -COORD_BOUND <= x <= COORD_BOUND, 0 <= m <= COORD_BOUND,
        ;
    }
    let prod = x * m;
    div_trunc_i64(prod, mag)
}

} // verus!
