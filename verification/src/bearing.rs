//! Exact comparison of how well a facing points at a target.
//!
//! The bearing from one cell to another is the direction of the vector
//! `(x / 2, y * sqrt(3) / 2)` in the plane, where `(x, y)` is the
//! [`bearing_vector`] of the two cells. The angle between that vector and a
//! facing has the cosine `num / (2 * sqrt(den))`, with `num` and `den` as a
//! [`Heading`] holds them. Two such cosines are compared by their signs and
//! squares, so no angle is ever rounded.

use vstd::prelude::*;
use crate::geometry::{Point, is_rotation};

verus! {

/// Largest absolute value of a numerator that [`Heading::closer_than`] takes.
pub const MAX_NUM: i64 = 1024;

/// Largest denominator that [`Heading::closer_than`] takes.
pub const MAX_DEN: i64 = 1048576;

/// How well a facing points at a target: the cosine of the angle between the
/// two is `num / (2 * sqrt(den))`.
#[derive(PartialEq, Eq, Structural, Clone, Copy, Debug)]
pub struct Heading {
    pub num: i64,
    pub den: i64,
}

/// The vector from `from` to `to`, in half columns and rows. The half column
/// that the row parity of the two cells adds is taken from the difference of
/// their rows. A target in the same cell bears east.
pub open spec fn bearing_vector(from: Point, to: Point) -> (int, int) {
    let x = 2 * (to.x - from.x) + (from.y - to.y) % 2;
    let y = to.y - from.y;
    if x == 0 && y == 0 {
        (2, 0)
    } else {
        (x, y)
    }
}

/// Four times the scalar product of the unit vector of a facing with the
/// vector that `v` stands for.
pub open spec fn facing_dot(rotation: int, v: (int, int)) -> int {
    if rotation == 0 {
        2 * v.0
    } else if rotation == 1 {
        v.0 - 3 * v.1
    } else if rotation == 2 {
        -v.0 - 3 * v.1
    } else if rotation == 3 {
        -2 * v.0
    } else if rotation == 4 {
        -v.0 + 3 * v.1
    } else {
        v.0 + 3 * v.1
    }
}

/// Four times the squared length of the vector that `v` stands for.
pub open spec fn squared_length(v: (int, int)) -> int {
    v.0 * v.0 + 3 * v.1 * v.1
}

/// Whether `n1 / sqrt(d1)` is greater than `n2 / sqrt(d2)`, for positive `d1`
/// and `d2`.
pub open spec fn cosine_greater(n1: int, d1: int, n2: int, d2: int) -> bool {
    if n1 >= 0 && n2 >= 0 {
        n1 * n1 * d2 > n2 * n2 * d1
    } else if n1 >= 0 {
        true
    } else if n2 >= 0 {
        false
    } else {
        n1 * n1 * d2 < n2 * n2 * d1
    }
}

impl Heading {
    /// The heading of a ship in `from` with the facing `rotation` towards `to`.
    pub open spec fn towards(from: Point, to: Point, rotation: int) -> Heading {
        let v = bearing_vector(from, to);
        Heading { num: facing_dot(rotation, v) as i64, den: squared_length(v) as i64 }
    }

    /// Whether the two numbers are small enough to be compared without
    /// overflow, and the denominator positive.
    pub open spec fn wf(self) -> bool {
        -MAX_NUM <= self.num <= MAX_NUM && 0 < self.den <= MAX_DEN
    }

    /// Whether the angle of `self` is strictly smaller than that of `other`.
    pub open spec fn spec_closer_than(self, other: Heading) -> bool {
        cosine_greater(self.num as int, self.den as int, other.num as int, other.den as int)
    }

    /// Whether `self` points at its target strictly better than `other` at
    /// its own: whether the angle between facing and bearing is smaller.
    pub fn closer_than(&self, other: &Heading) -> (b: bool)
        requires
            self.wf(),
            other.wf(),
        ensures
            b == self.spec_closer_than(*other),
    {
        let n1: i64 = self.num;
        let n2: i64 = other.num;
        let d1: i64 = self.den;
        let d2: i64 = other.den;
        assert(0 <= n1 * n1 <= 1048576 && 0 <= n2 * n2 <= 1048576) by (nonlinear_arith)
            requires
                -1024 <= n1 <= 1024,
                -1024 <= n2 <= 1024,
        ;
        let s1: i64 = n1 * n1;
        let s2: i64 = n2 * n2;
        assert(0 <= s1 * d2 <= 1099511627776 && 0 <= s2 * d1 <= 1099511627776) by (nonlinear_arith)
            requires
                0 <= s1 <= 1048576,
                0 <= s2 <= 1048576,
                0 < d1 <= 1048576,
                0 < d2 <= 1048576,
        ;
        let left: i64 = s1 * d2;
        let right: i64 = s2 * d1;
        if n1 >= 0 && n2 >= 0 {
            left > right
        } else if n1 >= 0 {
            true
        } else if n2 >= 0 {
            false
        } else {
            left < right
        }
    }
}

impl Point {
    /// How well a ship in this cell with the facing `rotation` points at
    /// `target`.
    pub fn heading(&self, target: &Point, rotation: i32) -> (h: Heading)
        requires
            self.on_board(),
            target.on_board(),
            is_rotation(rotation as int),
        ensures
            h == Heading::towards(*self, *target, rotation as int),
            h.wf(),
    {
        let rows: i32 = self.y - target.y;
        let half: i64 = if rows % 2 == 0 {
            0
        } else {
            1
        };
        let mut x: i64 = 2 * (target.x as i64 - self.x as i64) + half;
        let mut y: i64 = target.y as i64 - self.y as i64;
        if x == 0 && y == 0 {
            x = 2;
        }
        let num: i64 = if rotation == 0 {
            2 * x
        } else if rotation == 1 {
            x - 3 * y
        } else if rotation == 2 {
            -x - 3 * y
        } else if rotation == 3 {
            -(2 * x)
        } else if rotation == 4 {
            -x + 3 * y
        } else {
            x + 3 * y
        };
        assert(0 <= x * x <= 2025 && 0 <= y * y <= 400 && (x * x + 3 * (y * y) > 0)) by (nonlinear_arith)
            requires
                -45 <= x <= 45,
                -20 <= y <= 20,
                x != 0 || y != 0,
        ;
        assert(3 * y * y == 3 * (y * y)) by (nonlinear_arith);
        let den: i64 = x * x + 3 * (y * y);
        Heading { num: num, den: den }
    }
}

/// No heading is closer than itself.
pub proof fn lemma_closer_irreflexive(a: Heading)
    ensures
        !a.spec_closer_than(a),
{
}

/// Of two headings at most one is closer than the other.
pub proof fn lemma_closer_asymmetric(a: Heading, b: Heading)
    ensures
        !(a.spec_closer_than(b) && b.spec_closer_than(a)),
{
}

/// Being closer carries over: a heading closer than a second one that is
/// closer than a third is closer than the third.
pub proof fn lemma_closer_transitive(a: Heading, b: Heading, c: Heading)
    requires
        a.den > 0,
        b.den > 0,
        c.den > 0,
        a.spec_closer_than(b),
        b.spec_closer_than(c),
    ensures
        a.spec_closer_than(c),
{
    let x = a.num as int * a.num as int;
    let y = b.num as int * b.num as int;
    let z = c.num as int * c.num as int;
    let p = a.den as int;
    let q = b.den as int;
    let r = c.den as int;
    assert(x >= 0 && y >= 0 && z >= 0) by (nonlinear_arith)
        requires
            x == a.num as int * a.num as int,
            y == b.num as int * b.num as int,
            z == c.num as int * c.num as int,
    ;
    if a.num >= 0 && b.num >= 0 && c.num >= 0 {
        lemma_cross_chain(x, p, y, q, z, r);
    } else if a.num < 0 && b.num < 0 && c.num < 0 {
        lemma_cross_chain(z, r, y, q, x, p);
    }
}

/// Cross-multiplied fractions chain: from `x / p > y / q` and `y / q > z / r`
/// follows `x / p > z / r`, for positive denominators and numerators that are
/// not negative.
proof fn lemma_cross_chain(x: int, p: int, y: int, q: int, z: int, r: int)
    requires
        x >= 0,
        y >= 0,
        z >= 0,
        p > 0,
        q > 0,
        r > 0,
        x * q > y * p,
        y * r > z * q,
    ensures
        x * r > z * p,
{
    assert((x * q) * r >= (y * p + 1) * r) by (nonlinear_arith)
        requires
            x * q >= y * p + 1,
            r > 0,
    ;
    assert((y * r) * p >= (z * q + 1) * p) by (nonlinear_arith)
        requires
            y * r >= z * q + 1,
            p > 0,
    ;
    assert((x * q) * r == (x * r) * q && (y * p + 1) * r == (y * r) * p + r && (z * q + 1) * p
        == (z * p) * q + p) by (nonlinear_arith);
    assert((x * r) * q > (z * p) * q);
    assert(x * r > z * p) by (nonlinear_arith)
        requires
            (x * r) * q > (z * p) * q,
            q > 0,
    ;
}

/// The cosine that a heading stands for lies between -1 and 1.
pub proof fn lemma_heading_is_cosine(from: Point, to: Point, rotation: int)
    requires
        from.on_board(),
        to.on_board(),
        is_rotation(rotation),
    ensures
        ({
            let h = Heading::towards(from, to, rotation);
            h.den > 0 && h.num * h.num <= 4 * h.den
        }),
{
    let v = bearing_vector(from, to);
    let x = v.0;
    let y = v.1;
    assert(x * x + 3 * y * y > 0) by (nonlinear_arith)
        requires
            x != 0 || y != 0,
    ;
    assert(-45 <= x <= 45 && -20 <= y <= 20);
    assert(0 <= x * x <= 2025 && 0 <= y * y <= 400) by (nonlinear_arith)
        requires
            -45 <= x <= 45,
            -20 <= y <= 20,
    ;
    assert(3 * y * y == 3 * (y * y)) by (nonlinear_arith);
    assert((x + y) * (x + y) >= 0 && (x - y) * (x - y) >= 0) by (nonlinear_arith);
    assert((2 * x) * (2 * x) <= 4 * (x * x + 3 * (y * y))) by (nonlinear_arith);
    assert((-2 * x) * (-2 * x) <= 4 * (x * x + 3 * (y * y))) by (nonlinear_arith);
    assert((x - 3 * y) * (x - 3 * y) <= 4 * (x * x + 3 * (y * y))) by (nonlinear_arith)
        requires
            (x + y) * (x + y) >= 0,
    ;
    assert((x + 3 * y) * (x + 3 * y) <= 4 * (x * x + 3 * (y * y))) by (nonlinear_arith)
        requires
            (x - y) * (x - y) >= 0,
    ;
    assert((-x - 3 * y) * (-x - 3 * y) == (x + 3 * y) * (x + 3 * y)) by (nonlinear_arith);
    assert((-x + 3 * y) * (-x + 3 * y) == (x - 3 * y) * (x - 3 * y)) by (nonlinear_arith);
}

} // verus!
