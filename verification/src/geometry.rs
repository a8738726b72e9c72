//! Hexagonal grid geometry on the bounded board.
//!
//! Cells are addressed by offset coordinates: `x` is the column and `y` the
//! row, and odd rows are shifted half a cell to the east. The six facings are
//! numbered from east (0) in steps of sixty degrees: 1 is north-east, 2 is
//! north-west, 3 is west, 4 is south-west and 5 is south-east. Rows grow to
//! the south.

use vstd::prelude::*;

verus! {

/// Largest column index of the board.
pub const MAX_X: i32 = 22;

/// Largest row index of the board.
pub const MAX_Y: i32 = 20;

/// A cell in offset coordinates.
#[derive(PartialEq, Eq, Structural, Clone, Copy, Hash, Debug)]
pub struct Point {
    pub x: i32,
    pub y: i32,
}

/// Whether `rotation` names one of the six facings.
pub open spec fn is_rotation(rotation: int) -> bool {
    0 <= rotation < 6
}

/// Whether the coordinate pair lies on the board.
pub open spec fn in_bounds(c: (int, int)) -> bool {
    0 <= c.0 <= MAX_X && 0 <= c.1 <= MAX_Y
}

/// Absolute value of an integer.
pub open spec fn abs(v: int) -> int {
    if v < 0 {
        -v
    } else {
        v
    }
}

/// Cube coordinates of an offset coordinate pair. The three components always
/// sum to zero; the third one is the row.
pub open spec fn cube(c: (int, int)) -> (int, int, int) {
    let x = c.0 - (c.1 - c.1 % 2) / 2;
    let z = c.1;
    (x, -(x + z), z)
}

/// Hex distance between two coordinate pairs: half the sum of the absolute
/// differences of their cube coordinates.
pub open spec fn hex_distance(a: (int, int), b: (int, int)) -> int {
    let p = cube(a);
    let q = cube(b);
    (abs(p.0 - q.0) + abs(p.1 - q.1) + abs(p.2 - q.2)) / 2
}

/// The coordinate pair one step away from `c` in the given facing, with no
/// regard to the edge of the board. The column change of the four diagonal
/// facings depends on the parity of the row.
pub open spec fn raw_step(c: (int, int), rotation: int) -> (int, int) {
    let even = c.1 % 2 == 0;
    if rotation == 0 {
        (c.0 + 1, c.1)
    } else if rotation == 1 {
        (if even { c.0 } else { c.0 + 1 }, c.1 - 1)
    } else if rotation == 2 {
        (if even { c.0 - 1 } else { c.0 }, c.1 - 1)
    } else if rotation == 3 {
        (c.0 - 1, c.1)
    } else if rotation == 4 {
        (if even { c.0 - 1 } else { c.0 }, c.1 + 1)
    } else {
        (if even { c.0 } else { c.0 + 1 }, c.1 + 1)
    }
}

/// The coordinate pair reached from `c` after `steps` steps in one facing,
/// with no regard to the edge of the board.
pub open spec fn raw_walk(c: (int, int), rotation: int, steps: nat) -> (int, int)
    decreases steps,
{
    if steps == 0 {
        c
    } else {
        raw_step(raw_walk(c, rotation, (steps - 1) as nat), rotation)
    }
}

/// The board cell nearest to a coordinate pair: each coordinate is moved to
/// the closest index of the board.
pub open spec fn clamp_to_board(c: (int, int)) -> Point {
    Point {
        x: if c.0 < 0 {
            0
        } else if c.0 > MAX_X {
            MAX_X
        } else {
            c.0 as i32
        },
        y: if c.1 < 0 {
            0
        } else if c.1 > MAX_Y {
            MAX_Y
        } else {
            c.1 as i32
        },
    }
}

/// The facing opposite to `rotation`.
pub open spec fn opposite(rotation: int) -> int {
    (rotation + 3) % 6
}

impl Point {
    /// The cell as a pair of mathematical integers.
    pub open spec fn coords(self) -> (int, int) {
        (self.x as int, self.y as int)
    }

    /// Whether the cell lies on the board.
    pub open spec fn on_board(self) -> bool {
        in_bounds(self.coords())
    }

    /// Hex distance to `other`.
    pub open spec fn spec_distance(self, other: Point) -> int {
        hex_distance(self.coords(), other.coords())
    }

    /// The neighbouring cell in the given facing, or the cell itself where
    /// that neighbour would lie off the board.
    pub open spec fn spec_neighbour(self, rotation: int) -> Point {
        let c = raw_step(self.coords(), rotation);
        if in_bounds(c) {
            Point { x: c.0 as i32, y: c.1 as i32 }
        } else {
            self
        }
    }

    /// The cell reached after `steps` calls of [`Point::spec_neighbour`] in
    /// one facing.
    pub open spec fn spec_walk(self, rotation: int, steps: nat) -> Point
        decreases steps,
    {
        if steps == 0 {
            self
        } else {
            self.spec_walk(rotation, (steps - 1) as nat).spec_neighbour(rotation)
        }
    }

    /// The cell `distance` steps away in a straight line, moved back onto the
    /// board where the line leaves it.
    pub open spec fn spec_offset(self, rotation: int, distance: nat) -> Point {
        clamp_to_board(raw_walk(self.coords(), rotation, distance))
    }

    /// The cell in column `x` and row `y`.
    pub fn new(x: i32, y: i32) -> (p: Point)
        ensures
            p == (Point { x: x, y: y }),
    {
        Point { x: x, y: y }
    }

    /// Hex distance between two board cells.
    pub fn distance(&self, point: &Point) -> (d: i32)
        requires
            self.on_board(),
            point.on_board(),
        ensures
            d == self.spec_distance(*point),
            0 <= d <= MAX_X + MAX_Y,
    {
        let sy: i32 = self.y;
        let py: i32 = point.y;
        let s_odd: i32 = sy & 1;
        let p_odd: i32 = py & 1;
        assert(s_odd == sy % 2) by (bit_vector)
            requires
                s_odd == sy & 1,
                0 <= sy <= 20,
        ;
        assert(p_odd == py % 2) by (bit_vector)
            requires
                p_odd == py & 1,
                0 <= py <= 20,
        ;
        let x1: i32 = self.x - (sy - s_odd) / 2;
        let z1: i32 = sy;
        let y1: i32 = -(x1 + z1);
        let x2: i32 = point.x - (py - p_odd) / 2;
        let z2: i32 = py;
        let y2: i32 = -(x2 + z2);
        (abs_i32(x1 - x2) + abs_i32(y1 - y2) + abs_i32(z1 - z2)) / 2
    }

    /// The neighbouring cell in the given facing. A step that would leave the
    /// board is not taken: the cell itself comes back.
    pub fn get_neighbour(&self, rotation: i32) -> (p: Point)
        requires
            self.on_board(),
            is_rotation(rotation as int),
        ensures
            p == self.spec_neighbour(rotation as int),
            p.on_board(),
    {
        let even: bool = self.y % 2 == 0;
        let mut x: i32 = self.x;
        let mut y: i32 = self.y;
        if rotation == 0 {
            x = x + 1;
        } else if rotation == 1 {
            if !even {
                x = x + 1;
            }
            y = y - 1;
        } else if rotation == 2 {
            if even {
                x = x - 1;
            }
            y = y - 1;
        } else if rotation == 3 {
            x = x - 1;
        } else if rotation == 4 {
            if even {
                x = x - 1;
            }
            y = y + 1;
        } else {
            if !even {
                x = x + 1;
            }
            y = y + 1;
        }
        if x < 0 || x > MAX_X || y < 0 || y > MAX_Y {
            Point { x: self.x, y: self.y }
        } else {
            Point { x: x, y: y }
        }
    }

    /// The cell `speed` steps away in a straight line in the given facing,
    /// computed in closed form and moved back onto the board where the line
    /// leaves it.
    pub fn get_offset(&self, rotation: i32, speed: i32) -> (p: Point)
        requires
            self.on_board(),
            is_rotation(rotation as int),
            0 <= speed,
        ensures
            p == self.spec_offset(rotation as int, speed as nat),
            p.on_board(),
    {
        let s: i64 = speed as i64;
        let even: bool = self.y % 2 == 0;
        // Diagonal steps that start in an odd row move one column east when
        // they go east; those that start in an even row move one column west
        // when they go west.
        let east: i64 = (s + if even { 0 } else { 1 }) / 2;
        let west: i64 = (s + if even { 1 } else { 0 }) / 2;
        let mut x: i64 = self.x as i64;
        let mut y: i64 = self.y as i64;
        if rotation == 0 {
            x = x + s;
        } else if rotation == 1 {
            x = x + east;
            y = y - s;
        } else if rotation == 2 {
            x = x - west;
            y = y - s;
        } else if rotation == 3 {
            x = x - s;
        } else if rotation == 4 {
            x = x - west;
            y = y + s;
        } else {
            x = x + east;
            y = y + s;
        }
        proof {
            lemma_raw_walk_closed_form(self.coords(), rotation as int, speed as nat);
        }
        let cx: i32 = if x < 0 {
            0
        } else if x > MAX_X as i64 {
            MAX_X
        } else {
            x as i32
        };
        let cy: i32 = if y < 0 {
            0
        } else if y > MAX_Y as i64 {
            MAX_Y
        } else {
            y as i32
        };
        Point { x: cx, y: cy }
    }
}

/// Absolute value of a machine integer other than the smallest one.
fn abs_i32(v: i32) -> (r: i32)
    requires
        v > i32::MIN,
    ensures
        r == abs(v as int),
{
    if v < 0 {
        -v
    } else {
        v
    }
}

/// Closed form of a straight walk: the endpoint of `steps` raw steps.
pub open spec fn walk_closed_form(c: (int, int), rotation: int, steps: nat) -> (int, int) {
    let even = c.1 % 2 == 0;
    let east = (steps + if even { 0int } else { 1int }) / 2;
    let west = (steps + if even { 1int } else { 0int }) / 2;
    if rotation == 0 {
        (c.0 + steps, c.1)
    } else if rotation == 1 {
        (c.0 + east, c.1 - steps)
    } else if rotation == 2 {
        (c.0 - west, c.1 - steps)
    } else if rotation == 3 {
        (c.0 - steps, c.1)
    } else if rotation == 4 {
        (c.0 - west, c.1 + steps)
    } else {
        (c.0 + east, c.1 + steps)
    }
}

/// A straight walk of raw steps ends where the closed form says.
pub proof fn lemma_raw_walk_closed_form(c: (int, int), rotation: int, steps: nat)
    ensures
        raw_walk(c, rotation, steps) == walk_closed_form(c, rotation, steps),
    decreases steps,
{
    if steps > 0 {
        lemma_raw_walk_closed_form(c, rotation, (steps - 1) as nat);
    }
}

} // verus!
