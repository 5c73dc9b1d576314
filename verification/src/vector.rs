//! Fixed-point 2-D vectors and the coordinate scale of the world.

use vstd::prelude::*;

verus! {

/// Number of fixed-point coordinate units in one tile.
///
/// All world geometry (positions, box extents, velocities) is measured in
/// these units, so a half-tile offset is the exact integer `TILE / 2`.
pub const TILE: i64 = 800;

/// Largest magnitude a world coordinate may have, in units.
///
/// Keeping every coordinate inside `[-COORD_LIMIT, COORD_LIMIT]` guarantees
/// that differences, penetration vectors and their L1 magnitudes all fit
/// comfortably in `i64`.
pub const COORD_LIMIT: i64 = 0x100_0000_0000;

/// Largest magnitude an entity position may have, in units.
///
/// Entity positions are kept a few tiles inside [`COORD_LIMIT`], so every
/// collision box derived from a position — including the grid cells it can
/// touch — stays within the world coordinate bounds.
pub const POS_LIMIT: i64 = COORD_LIMIT - 8 * TILE;

/// `v` clamped into `[lo, hi]`.
pub open spec fn clamp_spec(v: int, lo: int, hi: int) -> int {
    if v < lo {
        lo
    } else if v > hi {
        hi
    } else {
        v
    }
}

/// Clamps `v` into `[lo, hi]`.
pub fn clamp(v: i64, lo: i64, hi: i64) -> (r: i64)
    requires
        lo <= hi,
    ensures
        r == clamp_spec(v as int, lo as int, hi as int),
{
    if v < lo {
        lo
    } else if v > hi {
        hi
    } else {
        v
    }
}

/// Division rounding toward negative infinity, for a positive divisor.
pub fn floor_div(a: i64, b: i64) -> (r: i64)
    requires
        b > 0,
    ensures
        r == a as int / b as int,
        a >= 0 ==> 0 <= r <= a,
        a < 0 ==> a <= r <= 0,
{
    let q = a / b;
    proof {
        if a < 0 {
            lemma_negated_division(a as int, b as int);
            vstd::arithmetic::div_mod::lemma_fundamental_div_mod(a as int, b as int);
            vstd::arithmetic::div_mod::lemma_mod_division_less_than_divisor(a as int, b as int);
            let qq = a as int / b as int;
            let rr = a as int % b as int;
            assert(qq <= 0) by (nonlinear_arith)
                requires
                    a as int == b as int * qq + rr,
                    0 <= rr < b,
                    b > 0,
                    a < 0,
            ;
        } else {
            vstd::arithmetic::div_mod::lemma_div_pos_is_pos(a as int, b as int);
            vstd::arithmetic::div_mod::lemma_div_nonincreasing(a as int, b as int);
        }
    }
    if a % b != 0 && a < 0 {
        q - 1
    } else {
        q
    }
}

/// Division rounding toward positive infinity, for a positive divisor.
pub fn ceil_div(a: i64, b: i64) -> (r: i64)
    requires
        b > 0,
        a > i64::MIN,
    ensures
        r == -((-(a as int)) / (b as int)),
{
    let q = a / b;
    proof {
        if a > 0 {
            lemma_negated_division(-(a as int), b as int);
            if (a as int) % (b as int) != 0 {
                vstd::arithmetic::div_mod::lemma_fundamental_div_mod(a as int, b as int);
                vstd::arithmetic::div_mod::lemma_mod_division_less_than_divisor(a as int, 1);
                vstd::arithmetic::div_mod::lemma_fundamental_div_mod(a as int, 1);
                let qq = a as int / b as int;
                let rr = a as int % b as int;
                assert(qq < a) by (nonlinear_arith)
                    requires
                        a as int == b as int * qq + rr,
                        0 <= rr < b,
                        rr != 0,
                        b >= 2,
                        a > 0,
                ;
            }
        }
    }
    if a % b != 0 && a > 0 {
        q + 1
    } else {
        q
    }
}

/// Relates the floor divisions of `a` and `-a` by a positive divisor.
proof fn lemma_negated_division(a: int, b: int)
    requires
        a < 0,
        b > 0,
    ensures
        a % b == 0 <==> (-a) % b == 0,
        a % b == 0 ==> -((-a) / b) == a / b,
        a % b != 0 ==> -((-a) / b) == a / b + 1,
        a / b >= a,
{
    vstd::arithmetic::div_mod::lemma_fundamental_div_mod(-a, b);
    vstd::arithmetic::div_mod::lemma_mod_division_less_than_divisor(-a, b);
    let m = (-a) / b;
    let rm = (-a) % b;
    assert(0 <= m <= -a) by (nonlinear_arith)
        requires
            -a == b * m + rm,
            0 <= rm < b,
            b > 0,
            a < 0,
    ;
    if rm == 0 {
        assert(a == (-m) * b + 0) by (nonlinear_arith)
            requires
                -a == b * m + rm,
                rm == 0,
        ;
        vstd::arithmetic::div_mod::lemma_fundamental_div_mod_converse(a, b, -m, 0);
    } else {
        assert(a == (-m - 1) * b + (b - rm) && m <= -a - 1) by (nonlinear_arith)
            requires
                -a == b * m + rm,
                0 < rm < b,
                b > 0,
                0 <= m,
        ;
        vstd::arithmetic::div_mod::lemma_fundamental_div_mod_converse(a, b, -m - 1, b - rm);
    }
}

/// A 2-D vector of fixed-point world coordinates.
///
/// The y axis points down, matching the screen coordinate system.
#[derive(Clone, Copy, Debug, PartialEq, Eq, Structural)]
pub struct Vector {
    pub x: i64,
    pub y: i64,
}

impl Vector {
    /// True when both components are within the world coordinate bounds.
    pub open spec fn in_bounds(self) -> bool {
        -COORD_LIMIT <= self.x <= COORD_LIMIT && -COORD_LIMIT <= self.y <= COORD_LIMIT
    }

    pub fn new(x: i64, y: i64) -> (r: Self)
        ensures
            r == (Vector { x, y }),
    {
        Vector { x, y }
    }

    /// The dot product of the two vectors.
    ///
    /// The components must be small enough for the products to fit.
    pub fn dot(self, rhs: Self) -> (r: i64)
        requires
            -0x4000_0000 <= self.x <= 0x4000_0000,
            -0x4000_0000 <= self.y <= 0x4000_0000,
            -0x4000_0000 <= rhs.x <= 0x4000_0000,
            -0x4000_0000 <= rhs.y <= 0x4000_0000,
        ensures
            r == self.x * rhs.x + self.y * rhs.y,
    {
        proof {
            lemma_bounded_product(self.x as int, rhs.x as int);
            lemma_bounded_product(self.y as int, rhs.y as int);
        }
        self.x * rhs.x + self.y * rhs.y
    }

    /// Squared magnitude (squared length) of the vector.
    ///
    /// The components must be small enough for the squares to fit.
    pub fn magnitude_squared(self) -> (r: i64)
        requires
            -0x4000_0000 <= self.x <= 0x4000_0000,
            -0x4000_0000 <= self.y <= 0x4000_0000,
        ensures
            r == self.x * self.x + self.y * self.y,
    {
        self.dot(self)
    }

    /// Component-wise sum.
    pub fn add(self, other: Self) -> (r: Self)
        requires
            i64::MIN <= self.x + other.x <= i64::MAX,
            i64::MIN <= self.y + other.y <= i64::MAX,
        ensures
            r.x == self.x + other.x,
            r.y == self.y + other.y,
    {
        Vector { x: self.x + other.x, y: self.y + other.y }
    }
}


/// The product of two coordinates bounded by `2^30` stays within `i64`.
proof fn lemma_bounded_product(a: int, b: int)
    requires
        -0x4000_0000 <= a <= 0x4000_0000,
        -0x4000_0000 <= b <= 0x4000_0000,
    ensures
        -0x1000_0000_0000_0000 <= a * b <= 0x1000_0000_0000_0000,
{
    assert(-0x1000_0000_0000_0000 <= a * b <= 0x1000_0000_0000_0000) by (nonlinear_arith)
        requires
            -0x4000_0000 <= a <= 0x4000_0000,
            -0x4000_0000 <= b <= 0x4000_0000,
    ;
}

} // verus!
