//! Fixed-point plane geometry.
//!
//! Every length is a whole number of units, `UNIT` of them to a pixel. A
//! direction of length one is a `Vector` whose length is `UNIT`.

use vstd::prelude::*;

verus! {

/// Units per pixel, and the length of a unit vector.
pub const UNIT: i64 = 1000;

/// The farthest from the origin, along either axis, that a position may lie.
pub const WORLD: i64 = 0x4000_0000_0000_0000;

/// The farthest that anything moves along either axis in one tick.
pub const REACH: i64 = 0x10_0000;

/// How far the square of a heading's length may lie from the square of
/// `UNIT`: what rounding a direction of length one to whole thousandths can
/// bring, and a little more.
pub const HEADING_SLACK: i64 = 2 * UNIT;

/// A position in the plane.
#[derive(Clone, Copy, Debug, PartialEq, Eq, Structural)]
pub struct Point {
    pub x: i64,
    pub y: i64,
}

/// A displacement or a direction.
#[derive(Clone, Copy, Debug, PartialEq, Eq, Structural)]
pub struct Vector {
    pub x: i64,
    pub y: i64,
}

/// An axis-parallel rectangle: top-left corner, width and height.
#[derive(Clone, Copy, Debug, PartialEq, Eq, Structural)]
pub struct Rect {
    pub x: i64,
    pub y: i64,
    pub w: i64,
    pub h: i64,
}

/// Whether `v` can be held in an `i64`.
pub open spec fn fits(v: int) -> bool {
    i64::MIN <= v <= i64::MAX
}

/// The quotient of `a` by a positive `b`, rounded toward zero.
pub open spec fn quot(a: int, b: int) -> int
    recommends
        b > 0,
{
    if a >= 0 {
        a / b
    } else {
        -((-a) / b)
    }
}

/// The distance between two coordinates.
pub open spec fn gap(a: int, b: int) -> int {
    if a >= b {
        a - b
    } else {
        b - a
    }
}

/// `factor` thousandths of `length`, rounded toward zero.
pub open spec fn scaled(length: int, factor: int) -> int {
    quot(length * factor, UNIT as int)
}

/// A rounded quotient is no longer than what was divided.
pub proof fn lemma_quot_bound(a: int, b: int)
    requires
        b > 0,
    ensures
        a >= 0 ==> 0 <= quot(a, b) <= a,
        a <= 0 ==> a <= quot(a, b) <= 0,
        quot(-a, b) == -quot(a, b),
{
    if a >= 0 {
        vstd::arithmetic::div_mod::lemma_div_pos_is_pos(a, b);
        vstd::arithmetic::div_mod::lemma_div_is_ordered_by_denominator(a, 1, b);
    } else {
        vstd::arithmetic::div_mod::lemma_div_pos_is_pos(-a, b);
        vstd::arithmetic::div_mod::lemma_div_is_ordered_by_denominator(-a, 1, b);
    }
}

/// Scaling by a factor of at most one unit in size does not lengthen.
pub proof fn lemma_scaled_bound(length: int, factor: int)
    requires
        -(UNIT as int) <= factor <= UNIT as int,
    ensures
        length >= 0 ==> -length <= scaled(length, factor) <= length,
        length <= 0 ==> length <= scaled(length, factor) <= -length,
{
    let u = UNIT as int;
    let p = length * factor;
    assert(-(length * u) <= p <= length * u || length * u <= p <= -(length * u))
        by (nonlinear_arith)
        requires
            -u <= factor <= u,
            p == length * factor,
    ;
    let bound = if length >= 0 { length } else { -length };
    assert(-(bound * u) <= p <= bound * u);
    if p >= 0 {
        vstd::arithmetic::div_mod::lemma_div_is_ordered(p, bound * u, u);
        vstd::arithmetic::div_mod::lemma_div_multiples_vanish(bound, u);
        vstd::arithmetic::div_mod::lemma_div_pos_is_pos(p, u);
    } else {
        vstd::arithmetic::div_mod::lemma_div_is_ordered(-p, bound * u, u);
        vstd::arithmetic::div_mod::lemma_div_multiples_vanish(bound, u);
        vstd::arithmetic::div_mod::lemma_div_pos_is_pos(-p, u);
    }
}

/// `|a - b| <= tolerance`, for any two coordinates.
pub fn within(a: i64, b: i64, tolerance: i64) -> (r: bool)
    ensures
        r == (gap(a as int, b as int) <= tolerance),
{
    let d: i128 = a as i128 - b as i128;
    if d >= 0 {
        d <= tolerance as i128
    } else {
        -d <= tolerance as i128
    }
}

/// `factor` thousandths of `length`, rounded toward zero.
pub fn scale(length: i64, factor: i64) -> (r: i64)
    requires
        0 <= length,
        -UNIT <= factor <= UNIT,
    ensures
        r == scaled(length as int, factor as int),
{
    proof {
        lemma_scaled_bound(length as int, factor as int);
        assert(-0x8000_0000_0000_0000 * 1000 <= length * factor <= 0x8000_0000_0000_0000 * 1000)
            by (nonlinear_arith)
            requires
                -1000 <= factor <= 1000,
                -0x8000_0000_0000_0000 <= length <= 0x8000_0000_0000_0000,
        ;
    }
    let p: i128 = length as i128 * factor as i128;
    let q: i128 = p / (UNIT as i128);
    q as i64
}

impl Vector {
    /// Whether neither component is longer than `bound`.
    pub open spec fn within(self, bound: int) -> bool {
        -bound <= self.x <= bound && -bound <= self.y <= bound
    }

    /// The square of the vector's length.
    pub open spec fn norm2(self) -> int {
        self.x * self.x + self.y * self.y
    }

    /// Whether the vector is a heading: no direction at all, or a direction
    /// of length one, which is a vector whose length is `UNIT` as nearly as
    /// whole thousandths allow.
    pub open spec fn is_heading(self) -> bool {
        &&& self.within(UNIT as int)
        &&& ((self.x == 0 && self.y == 0) || (UNIT * UNIT - HEADING_SLACK <= self.norm2() <= UNIT
            * UNIT + HEADING_SLACK))
    }

    /// Whether the vector is a heading.
    pub fn is_a_heading(self) -> (r: bool)
        ensures
            r == self.is_heading(),
    {
        if !(-UNIT <= self.x && self.x <= UNIT && -UNIT <= self.y && self.y <= UNIT) {
            return false;
        }
        assert(0 <= self.x * self.x <= 1_000_000 && 0 <= self.y * self.y <= 1_000_000)
            by (nonlinear_arith)
            requires
                -1000 <= self.x <= 1000,
                -1000 <= self.y <= 1000,
        ;
        let n: i64 = self.x * self.x + self.y * self.y;
        (self.x == 0 && self.y == 0) || (UNIT * UNIT - HEADING_SLACK <= n && n <= UNIT * UNIT
            + HEADING_SLACK)
    }
}

/// Rounding a quotient by a thousand toward zero takes less than a thousand
/// from what was divided: the square of a thousand times the quotient lies
/// below the square of what was divided by no more than 1998 times its size.
pub proof fn lemma_quot_square(a: int)
    ensures
        ({
            let q = quot(a, UNIT as int);
            let size = if a >= 0 { a } else { -a };
            a * a - 1998 * size <= 1_000_000 * (q * q) <= a * a
        }),
{
    let size = if a >= 0 { a } else { -a };
    let q = size / 1000;
    let r = size % 1000;
    vstd::arithmetic::div_mod::lemma_fundamental_div_mod(size, 1000);
    vstd::arithmetic::div_mod::lemma_mod_bound(size, 1000);
    vstd::arithmetic::div_mod::lemma_div_pos_is_pos(size, 1000);
    assert(quot(a, UNIT as int) == q || quot(a, UNIT as int) == -q);
    assert(quot(a, UNIT as int) * quot(a, UNIT as int) == q * q) by (nonlinear_arith)
        requires
            quot(a, UNIT as int) == q || quot(a, UNIT as int) == -q,
    ;
    assert(a * a == size * size) by (nonlinear_arith)
        requires
            size == a || size == -a,
    ;
    assert(size * size - 1998 * size <= 1_000_000 * (q * q) <= size * size) by (nonlinear_arith)
        requires
            size == 1000 * q + r,
            0 <= r <= 999,
            0 <= q,
    ;
}

impl Point {
    /// Whether the point lies in the world.
    pub open spec fn in_world(self) -> bool {
        -WORLD <= self.x <= WORLD && -WORLD <= self.y <= WORLD
    }

    /// Whether the point lies at least `margin` inside the world.
    pub open spec fn clear_by(self, margin: int) -> bool {
        -WORLD + margin <= self.x <= WORLD - margin && -WORLD + margin <= self.y <= WORLD - margin
    }

    /// Whether the point lies so far inside the world that one tick's
    /// movement cannot take it out.
    pub open spec fn has_room(self) -> bool {
        self.clear_by(REACH as int)
    }

    /// The point reached from `self` by `v`.
    pub open spec fn plus(self, v: Vector) -> Point {
        Point { x: (self.x + v.x) as i64, y: (self.y + v.y) as i64 }
    }

    /// The point reached from `self` by `v`.
    pub fn offset(self, v: Vector) -> (p: Point)
        requires
            fits(self.x + v.x),
            fits(self.y + v.y),
        ensures
            p == self.plus(v),
    {
        Point { x: self.x + v.x, y: self.y + v.y }
    }

    /// Whether the point lies in the world.
    pub fn is_in_world(self) -> (r: bool)
        ensures
            r == self.in_world(),
    {
        -WORLD <= self.x && self.x <= WORLD && -WORLD <= self.y && self.y <= WORLD
    }

    /// Whether one tick's movement cannot take the point out of the world.
    pub fn is_roomy(self) -> (r: bool)
        ensures
            r == self.has_room(),
    {
        -WORLD + REACH <= self.x && self.x <= WORLD - REACH && -WORLD + REACH <= self.y && self.y
            <= WORLD - REACH
    }
}

} // verus!
