//! Laws of the grid geometry.

use vstd::prelude::*;
use crate::geometry::{
    Point,
    abs,
    cube,
    hex_distance,
    in_bounds,
    is_rotation,
    lemma_raw_walk_closed_form,
    opposite,
    raw_step,
    raw_walk,
};

verus! {

/// Cube coordinates moved by `steps` cells in a facing. In cube coordinates
/// a step in a facing is the same change in every row.
pub open spec fn cube_shift(p: (int, int, int), rotation: int, steps: int) -> (int, int, int) {
    if rotation == 0 {
        (p.0 + steps, p.1 - steps, p.2)
    } else if rotation == 1 {
        (p.0 + steps, p.1, p.2 - steps)
    } else if rotation == 2 {
        (p.0, p.1 + steps, p.2 - steps)
    } else if rotation == 3 {
        (p.0 - steps, p.1 + steps, p.2)
    } else if rotation == 4 {
        (p.0 - steps, p.1, p.2 + steps)
    } else {
        (p.0, p.1 - steps, p.2 + steps)
    }
}

/// The distance from a cell to itself is zero.
pub proof fn lemma_distance_to_self(a: Point)
    ensures
        a.spec_distance(a) == 0,
{
}

/// The distance does not depend on the order of its two cells.
pub proof fn lemma_distance_symmetric(a: Point, b: Point)
    ensures
        a.spec_distance(b) == b.spec_distance(a),
{
}

/// The distance is never negative, and it is zero only between a cell and
/// itself.
pub proof fn lemma_distance_separates(a: Point, b: Point)
    ensures
        a.spec_distance(b) >= 0,
        a.spec_distance(b) == 0 <==> a == b,
{
}

/// The way over a third cell is never shorter than the distance.
pub proof fn lemma_distance_triangle(a: Point, b: Point, c: Point)
    ensures
        a.spec_distance(c) <= a.spec_distance(b) + b.spec_distance(c),
{
    lemma_cube_differences_even(a.coords(), b.coords());
    lemma_cube_differences_even(b.coords(), c.coords());
    lemma_cube_differences_even(a.coords(), c.coords());
}

/// The sum of the absolute differences of two cells' cube coordinates is
/// even, so halving it loses nothing.
pub proof fn lemma_cube_differences_even(a: (int, int), b: (int, int))
    ensures
        ({
            let p = cube(a);
            let q = cube(b);
            abs(p.0 - q.0) + abs(p.1 - q.1) + abs(p.2 - q.2) == 2 * hex_distance(a, b)
        }),
{
}

/// One raw step moves the cube coordinates by one cell in its facing.
pub proof fn lemma_raw_step_cube(c: (int, int), rotation: int)
    requires
        is_rotation(rotation),
    ensures
        cube(raw_step(c, rotation)) == cube_shift(cube(c), rotation, 1),
{
}

/// A straight walk of `steps` raw steps moves the cube coordinates by `steps`
/// cells in its facing.
pub proof fn lemma_raw_walk_cube(c: (int, int), rotation: int, steps: nat)
    requires
        is_rotation(rotation),
    ensures
        cube(raw_walk(c, rotation, steps)) == cube_shift(cube(c), rotation, steps as int),
    decreases steps,
{
    if steps > 0 {
        let before = raw_walk(c, rotation, (steps - 1) as nat);
        lemma_raw_walk_cube(c, rotation, (steps - 1) as nat);
        lemma_raw_step_cube(before, rotation);
    }
}

/// A straight walk of `steps` raw steps ends exactly `steps` cells away from
/// where it began.
pub proof fn lemma_raw_walk_distance(c: (int, int), rotation: int, steps: nat)
    requires
        is_rotation(rotation),
    ensures
        hex_distance(c, raw_walk(c, rotation, steps)) == steps,
{
    lemma_raw_walk_cube(c, rotation, steps);
}

/// A step that is taken leads to a cell at distance one.
pub proof fn lemma_neighbour_adjacent(p: Point, rotation: int)
    requires
        p.on_board(),
        is_rotation(rotation),
    ensures
        p.spec_neighbour(rotation).on_board(),
        p.spec_neighbour(rotation) == p || p.spec_distance(p.spec_neighbour(rotation)) == 1,
{
    lemma_raw_walk_distance(p.coords(), rotation, 1);
    assert(raw_walk(p.coords(), rotation, 1) == raw_step(p.coords(), rotation)) by {
        assert(raw_walk(p.coords(), rotation, 0) == p.coords());
    }
}

/// Stepping back after a step that was taken returns to the first cell.
pub proof fn lemma_step_and_back(p: Point, rotation: int)
    requires
        p.on_board(),
        is_rotation(rotation),
        p.spec_neighbour(rotation) != p,
    ensures
        p.spec_neighbour(rotation).spec_neighbour(opposite(rotation)) == p,
{
}

/// Ring closure: six steps that turn by one facing after each step, none of
/// them stopped by the edge of the board, lead around a hexagon and back to
/// the first cell.
pub proof fn lemma_ring_closure(p: Point, rotation: int)
    requires
        p.on_board(),
        is_rotation(rotation),
        forall|k: nat| k < 6 ==> #[trigger] ring_step_taken(p, rotation, k),
    ensures
        ring_walk(p, rotation, 6) == p,
{
    reveal_with_fuel(ring_walk, 7);
    assert(ring_step_taken(p, rotation, 0));
    assert(ring_step_taken(p, rotation, 1));
    assert(ring_step_taken(p, rotation, 2));
    assert(ring_step_taken(p, rotation, 3));
    assert(ring_step_taken(p, rotation, 4));
    assert(ring_step_taken(p, rotation, 5));
}

/// Whether the step of a ring walk that follows its first `k` steps is taken,
/// that is, not stopped by the edge of the board.
pub open spec fn ring_step_taken(p: Point, rotation: int, k: nat) -> bool {
    ring_walk(p, rotation, k + 1) != ring_walk(p, rotation, k)
}

/// The cell reached after `steps` steps of which the first goes in the facing
/// `rotation` and each later one in the facing that follows the one before.
pub open spec fn ring_walk(p: Point, rotation: int, steps: nat) -> Point
    decreases steps,
{
    if steps == 0 {
        p
    } else {
        ring_walk(p, rotation, (steps - 1) as nat).spec_neighbour((rotation + steps - 1) % 6)
    }
}

/// A walk in one facing on the board is a raw walk of as many steps as were
/// not stopped by the edge. The result is that number: it is at most `steps`,
/// and at least one where the first step is taken.
pub proof fn lemma_walk_is_raw_walk(p: Point, rotation: int, steps: nat) -> (taken: nat)
    requires
        p.on_board(),
        is_rotation(rotation),
    ensures
        taken <= steps,
        steps > 0 && p.spec_neighbour(rotation) != p ==> taken >= 1,
        p.spec_neighbour(rotation) == p ==> taken == 0,
        p.spec_walk(rotation, steps).on_board(),
        p.spec_walk(rotation, steps).coords() == raw_walk(p.coords(), rotation, taken),
    decreases steps,
{
    if steps == 0 {
        0
    } else {
        let before = lemma_walk_is_raw_walk(p, rotation, (steps - 1) as nat);
        let cell = p.spec_walk(rotation, (steps - 1) as nat);
        if cell.spec_neighbour(rotation) == cell {
            before
        } else {
            if before == 0 && steps > 1 {
                assert(raw_walk(p.coords(), rotation, 0) == p.coords());
                assert(cell == p);
            }
            before + 1
        }
    }
}

/// The distance covered by a walk in one facing is the number of steps that
/// the edge of the board did not stop, so it is at most the number of steps.
pub proof fn lemma_walk_distance(p: Point, rotation: int, steps: nat)
    requires
        p.on_board(),
        is_rotation(rotation),
    ensures
        0 <= p.spec_distance(p.spec_walk(rotation, steps)) <= steps,
{
    let taken = lemma_walk_is_raw_walk(p, rotation, steps);
    lemma_raw_walk_distance(p.coords(), rotation, taken);
}

/// Six steps in one facing return to the first cell exactly when the first of
/// them is stopped by the edge of the board: a walk that gets under way only
/// moves away from where it began.
pub proof fn lemma_straight_walk_returns(p: Point, rotation: int)
    requires
        p.on_board(),
        is_rotation(rotation),
    ensures
        p.spec_walk(rotation, 6) == p <==> p.spec_neighbour(rotation) == p,
{
    let taken = lemma_walk_is_raw_walk(p, rotation, 6);
    lemma_raw_walk_distance(p.coords(), rotation, taken);
    if p.spec_neighbour(rotation) == p {
        assert(raw_walk(p.coords(), rotation, 0) == p.coords());
    }
}

/// A walk whose raw endpoint lies on the board is stopped nowhere: it ends at
/// that endpoint, `steps` cells away from where it began.
pub proof fn lemma_unhindered_walk(p: Point, rotation: int, steps: nat)
    requires
        p.on_board(),
        is_rotation(rotation),
        in_bounds(raw_walk(p.coords(), rotation, steps)),
    ensures
        p.spec_walk(rotation, steps).coords() == raw_walk(p.coords(), rotation, steps),
        p.spec_distance(p.spec_walk(rotation, steps)) == steps,
    decreases steps,
{
    lemma_raw_walk_distance(p.coords(), rotation, steps);
    if steps > 0 {
        lemma_raw_walk_closed_form(p.coords(), rotation, steps);
        lemma_raw_walk_closed_form(p.coords(), rotation, (steps - 1) as nat);
        lemma_unhindered_walk(p, rotation, (steps - 1) as nat);
    }
}

/// An offset of no steps is the cell itself.
pub proof fn lemma_offset_zero(p: Point, rotation: int)
    requires
        p.on_board(),
    ensures
        p.spec_offset(rotation, 0) == p,
{
}

/// An offset whose line stays on the board ends where a walk of as many
/// steps ends, `distance` cells away.
pub proof fn lemma_offset_on_board(p: Point, rotation: int, distance: nat)
    requires
        p.on_board(),
        is_rotation(rotation),
        in_bounds(raw_walk(p.coords(), rotation, distance)),
    ensures
        p.spec_offset(rotation, distance) == p.spec_walk(rotation, distance),
        p.spec_distance(p.spec_offset(rotation, distance)) == distance,
{
    lemma_unhindered_walk(p, rotation, distance);
}

} // verus!
