//! Fixed-point 2D vectors and the integer arithmetic the simulation uses.
use vstd::prelude::*;

verus! {

/// Number of fixed-point steps in one world unit; a unit direction vector
/// has length `UNIT`.
pub const UNIT: i64 = 1000;

/// Every coordinate and extent the simulation stores lies within
/// `[-COORD_LIMIT, COORD_LIMIT]`, which keeps all intermediate products far
/// from the machine limits.
pub const COORD_LIMIT: i64 = 1_099_511_627_776;

/// A 2D vector in fixed-point world coordinates.
#[derive(Clone, Copy, PartialEq, Eq, Debug, Structural)]
pub struct Vec2 {
    pub x: i64,
    pub y: i64,
}

/// Integer division rounding toward zero, as machine division does.
pub open spec fn div_trunc(a: int, d: int) -> int {
    if a >= 0 {
        a / d
    } else {
        -((-a) / d)
    }
}

/// A coordinate forced into the representable world range.
pub open spec fn clamp_coord(v: int) -> int {
    if v < -COORD_LIMIT {
        -COORD_LIMIT
    } else if v > COORD_LIMIT {
        COORD_LIMIT as int
    } else {
        v
    }
}

pub open spec fn coord_ok(v: int) -> bool {
    -COORD_LIMIT <= v <= COORD_LIMIT
}

/// `r` is the integer square root of `n`.
pub open spec fn is_isqrt(n: nat, r: nat) -> bool {
    r * r <= n && n < (r + 1) * (r + 1)
}

/// The integer square root of `n`: the one `r` with `r² ≤ n < (r+1)²`.
pub open spec fn isqrt_spec(n: nat) -> nat {
    choose|r: nat| is_isqrt(n, r)
}

impl Vec2 {
    pub open spec fn in_bounds(self) -> bool {
        coord_ok(self.x as int) && coord_ok(self.y as int)
    }

    pub open spec fn is_zero(self) -> bool {
        self.x == 0 && self.y == 0
    }

    /// Squared Euclidean length.
    pub open spec fn norm_sq(self) -> nat {
        (self.x * self.x + self.y * self.y) as nat
    }

    /// Length in fixed-point steps (`UNIT` times the Euclidean length),
    /// rounded down.
    pub open spec fn length_spec(self) -> nat {
        isqrt_spec(self.norm_sq() * (UNIT * UNIT) as nat)
    }

    /// The direction of `self` scaled to length `UNIT` (each component
    /// rounded toward zero), or exactly zero for the zero vector.
    pub open spec fn normalized(self) -> Vec2 {
        if self.is_zero() {
            Vec2 { x: 0, y: 0 }
        } else {
            Vec2 {
                x: div_trunc(self.x * UNIT * UNIT, self.length_spec() as int) as i64,
                y: div_trunc(self.y * UNIT * UNIT, self.length_spec() as int) as i64,
            }
        }
    }

    /// `self` with each coordinate forced into the world range.
    pub open spec fn clamped(self) -> Vec2 {
        Vec2 { x: clamp_coord(self.x as int) as i64, y: clamp_coord(self.y as int) as i64 }
    }

    /// Forces each coordinate into the world range.
    pub fn clamp(&self) -> (r: Vec2)
        ensures
            r == self.clamped(),
            r.in_bounds(),
    {
        Vec2 { x: clamp_coord_exec(self.x as i128), y: clamp_coord_exec(self.y as i128) }
    }

    pub fn zero() -> (r: Vec2)
        ensures
            r.is_zero(),
    {
        Vec2 { x: 0, y: 0 }
    }

    pub fn new(x: i64, y: i64) -> (r: Vec2)
        ensures
            r.x == x && r.y == y,
    {
        Vec2 { x, y }
    }

    /// Normalize-or-zero: a zero-length vector yields exactly `(0, 0)`,
    /// any other yields its direction at length `UNIT`.
    pub fn normalize_or_zero(&self) -> (r: Vec2)
        requires
            self.in_bounds(),
        ensures
            r == self.normalized(),
            self.is_zero() ==> r.is_zero(),
            -UNIT <= r.x <= UNIT && -UNIT <= r.y <= UNIT,
    {
        if self.x == 0 && self.y == 0 {
            return Vec2 { x: 0, y: 0 };
        }
        let x = self.x as i128 * 1000;
        let y = self.y as i128 * 1000;
        proof {
            assert(x * x <= 0x100_0000_0000_0000_0000_0000_0000) by (nonlinear_arith)
                requires -0x10_0000_0000_0000 <= x <= 0x10_0000_0000_0000;
            assert(y * y <= 0x100_0000_0000_0000_0000_0000_0000) by (nonlinear_arith)
                requires -0x10_0000_0000_0000 <= y <= 0x10_0000_0000_0000;
            assert(x * x >= 0) by (nonlinear_arith);
            assert(y * y >= 0) by (nonlinear_arith);
            assert(x * x + y * y == self.norm_sq() * (UNIT * UNIT)) by (nonlinear_arith)
                requires x == self.x * 1000, y == self.y * 1000, UNIT == 1000;
        }
        let sq: u128 = (x * x) as u128 + (y * y) as u128;
        let len = isqrt(sq);
        proof {
            lemma_isqrt_unique(sq as nat, len as nat, isqrt_spec(sq as nat));
            lemma_component_le_length(x as int, y as int, len as int);
            lemma_component_le_length(y as int, x as int, len as int);
        }
        let l = len as i128;
        let nx = div_trunc_exec(x * 1000, l);
        let ny = div_trunc_exec(y * 1000, l);
        proof {
            lemma_scaled_ratio_bounded(x as int, l as int);
            lemma_scaled_ratio_bounded(y as int, l as int);
        }
        Vec2 { x: nx as i64, y: ny as i64 }
    }
}

/// Integer division rounding toward zero.
pub fn div_trunc_exec(a: i128, d: i128) -> (r: i128)
    requires
        d > 0,
        a > i128::MIN,
    ensures
        r == div_trunc(a as int, d as int),
{
    if a >= 0 {
        a / d
    } else {
        let q = (-a) / d;
        -q
    }
}

/// Forces `v` into `[-COORD_LIMIT, COORD_LIMIT]`.
pub fn clamp_coord_exec(v: i128) -> (r: i64)
    ensures
        r == clamp_coord(v as int),
        coord_ok(r as int),
{
    if v < -(COORD_LIMIT as i128) {
        -COORD_LIMIT
    } else if v > COORD_LIMIT as i128 {
        COORD_LIMIT
    } else {
        v as i64
    }
}

/// Integer square root by bisection.
pub fn isqrt(n: u128) -> (r: u64)
    ensures
        is_isqrt(n as nat, r as nat),
{
    let mut lo: u128 = 0;
    let mut hi: u128 = 0x1_0000_0000_0000_0000;
    proof {
        assert(hi * hi == 0x1_0000_0000_0000_0000_0000_0000_0000_0000);
    }
    while hi - lo > 1
        invariant
            lo < hi <= 0x1_0000_0000_0000_0000,
            lo * lo <= n,
            n < hi * hi,
        decreases hi - lo,
    {
        let mid = lo + (hi - lo) / 2;
        proof {
            assert(mid * mid < 0x1_0000_0000_0000_0000_0000_0000_0000_0000) by (nonlinear_arith)
                requires mid < 0x1_0000_0000_0000_0000, mid >= 0;
        }
        if mid * mid <= n {
            lo = mid;
        } else {
            hi = mid;
        }
    }
    proof {
        assert(hi == lo + 1);
    }
    lo as u64
}

/// The integer square root is unique.
pub proof fn lemma_isqrt_unique(n: nat, a: nat, b: nat)
    requires
        is_isqrt(n, a),
    ensures
        is_isqrt(n, isqrt_spec(n)),
        isqrt_spec(n) == a,
{
    assert(is_isqrt(n, isqrt_spec(n)));
    let c = isqrt_spec(n);
    if a < c {
        assert((a + 1) * (a + 1) <= c * c) by (nonlinear_arith)
            requires a + 1 <= c;
    } else if c < a {
        assert((c + 1) * (c + 1) <= a * a) by (nonlinear_arith)
            requires c + 1 <= a;
    }
}

proof fn lemma_component_le_length(x: int, y: int, len: int)
    requires
        len >= 0,
        x * x + y * y < (len + 1) * (len + 1),
    ensures
        -len <= x <= len,
{
    assert(y * y >= 0) by (nonlinear_arith);
    if x > len {
        assert(x * x >= (len + 1) * (len + 1)) by (nonlinear_arith)
            requires x >= len + 1, len >= 0;
    }
    if x < -len {
        assert(x * x >= (len + 1) * (len + 1)) by (nonlinear_arith)
            requires -x >= len + 1, len >= 0;
    }
}

proof fn lemma_scaled_ratio_bounded(x: int, l: int)
    requires
        l > 0,
        -l <= x <= l,
    ensures
        -1000 <= div_trunc(x * 1000, l) <= 1000,
{
    if x >= 0 {
        assert(x * 1000 <= l * 1000) by (nonlinear_arith)
            requires x <= l;
        assert(x * 1000 >= 0) by (nonlinear_arith)
            requires x >= 0;
        vstd::arithmetic::div_mod::lemma_div_is_ordered(x * 1000, l * 1000, l);
        vstd::arithmetic::div_mod::lemma_div_multiples_vanish(1000, l);
        assert(l * 1000 == 1000 * l) by (nonlinear_arith);
        vstd::arithmetic::div_mod::lemma_div_pos_is_pos(x * 1000, l);
    } else {
        assert((-x) * 1000 <= l * 1000) by (nonlinear_arith)
            requires -x <= l;
        assert((-x) * 1000 >= 0) by (nonlinear_arith)
            requires x < 0;
        assert(-(x * 1000) == (-x) * 1000) by (nonlinear_arith);
        vstd::arithmetic::div_mod::lemma_div_is_ordered((-x) * 1000, l * 1000, l);
        vstd::arithmetic::div_mod::lemma_div_multiples_vanish(1000, l);
        assert(l * 1000 == 1000 * l) by (nonlinear_arith);
        vstd::arithmetic::div_mod::lemma_div_pos_is_pos((-x) * 1000, l);
    }
}

} // verus!
