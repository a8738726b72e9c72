//! Laws of the move planner.

use vstd::prelude::*;
use crate::action::Action;
use crate::game::GameView;
use crate::geometry::Point;
use crate::planner::{eligible, lemma_evaluate_unfolds, MAX_DEPTH};

verus! {

/// Whether `action`, taken at the first ply, ends in a collision.
pub open spec fn stopped(
    world: GameView,
    dest: Point,
    point: Point,
    rotation: int,
    speed: int,
    ship_id: int,
    action: Action,
) -> bool {
    world.evaluate(dest, point, rotation, speed, action, 1, ship_id).1
}

/// The value of `action`, taken at the first ply.
pub open spec fn worth(
    world: GameView,
    dest: Point,
    point: Point,
    rotation: int,
    speed: int,
    ship_id: int,
    action: Action,
) -> int {
    world.evaluate(dest, point, rotation, speed, action, 1, ship_id).0
}

/// A ship at full speed that is told to speed up, and a ship at rest that is
/// told to slow down, does what a ship does that holds.
pub proof fn lemma_idle_change_is_hold(
    world: GameView,
    dest: Point,
    point: Point,
    rotation: int,
    speed: int,
    depth: int,
    ship_id: int,
)
    ensures
        speed >= 2 ==> world.evaluate(dest, point, rotation, speed, Action::FASTER, depth, ship_id)
            == world.evaluate(dest, point, rotation, speed, Action::WAIT, depth, ship_id),
        speed <= 0 ==> world.evaluate(dest, point, rotation, speed, Action::SLOWER, depth, ship_id)
            == world.evaluate(dest, point, rotation, speed, Action::WAIT, depth, ship_id),
{
    lemma_evaluate_unfolds(world, dest, point, rotation, speed, Action::WAIT, depth, ship_id);
    lemma_evaluate_unfolds(world, dest, point, rotation, speed, Action::FASTER, depth, ship_id);
    lemma_evaluate_unfolds(world, dest, point, rotation, speed, Action::SLOWER, depth, ship_id);
}

/// The planner always answers with one of the five moves.
pub proof fn lemma_choice_is_move(world: GameView, dest: Point, point: Point, rotation: int, speed: int, ship_id: int)
    ensures
        world.choice(dest, point, rotation, speed, ship_id).is_move(),
{
}

/// What the planner selects may be chosen, does not collide, and carries its
/// own value.
pub proof fn lemma_selection_is_sound(
    world: GameView,
    dest: Point,
    point: Point,
    rotation: int,
    speed: int,
    ship_id: int,
)
    ensures
        match world.selection(dest, point, rotation, speed, ship_id) {
            Some((value, action)) => {
                &&& action.is_move()
                &&& eligible(action, speed)
                &&& !stopped(world, dest, point, rotation, speed, ship_id, action)
                &&& value == worth(world, dest, point, rotation, speed, ship_id, action)
            },
            None => true,
        },
{
}

/// The planner selects nothing only where no move that may be chosen is free
/// of a collision; and what it selects is worth no less than any such move.
pub proof fn lemma_selection_is_best(
    world: GameView,
    dest: Point,
    point: Point,
    rotation: int,
    speed: int,
    ship_id: int,
    other: Action,
)
    requires
        other.is_move(),
        eligible(other, speed),
        !stopped(world, dest, point, rotation, speed, ship_id, other),
    ensures
        world.selection(dest, point, rotation, speed, ship_id) is Some,
(world.selection(dest, point, rotation, speed, ship_id)->0).0 >= worth(
            world,
            dest,
            point,
            rotation,
            speed,
            ship_id,
            other,
        ),
{
}

/// The planner never answers with a move that collides while one of the five
/// moves does not collide.
pub proof fn lemma_never_collides_needlessly(
    world: GameView,
    dest: Point,
    point: Point,
    rotation: int,
    speed: int,
    ship_id: int,
    other: Action,
)
    requires
        other.is_move(),
        !stopped(world, dest, point, rotation, speed, ship_id, other),
    ensures
        !stopped(world, dest, point, rotation, speed, ship_id, world.choice(dest, point, rotation, speed, ship_id)),
{
    lemma_idle_change_is_hold(world, dest, point, rotation, speed, 1, ship_id);
    lemma_selection_is_sound(world, dest, point, rotation, speed, ship_id);
    if eligible(other, speed) {
        lemma_selection_is_best(world, dest, point, rotation, speed, ship_id, other);
    } else {
        lemma_selection_is_best(world, dest, point, rotation, speed, ship_id, Action::WAIT);
    }
}

/// Of the moves that may be chosen and do not collide, the planner answers
/// with one of the greatest value; and among several of that value with the
/// one that comes last in the order hold, port, starboard, faster, slower.
pub proof fn lemma_choice_is_best(
    world: GameView,
    dest: Point,
    point: Point,
    rotation: int,
    speed: int,
    ship_id: int,
    other: Action,
)
    requires
        other.is_move(),
        eligible(other, speed),
        !stopped(world, dest, point, rotation, speed, ship_id, other),
    ensures
        ({
            let chosen = world.choice(dest, point, rotation, speed, ship_id);
            &&& eligible(chosen, speed)
            &&& !stopped(world, dest, point, rotation, speed, ship_id, chosen)
            &&& worth(world, dest, point, rotation, speed, ship_id, chosen) >= worth(
                world,
                dest,
                point,
                rotation,
                speed,
                ship_id,
                other,
            )
            &&& worth(world, dest, point, rotation, speed, ship_id, chosen) == worth(
                world,
                dest,
                point,
                rotation,
                speed,
                ship_id,
                other,
            ) ==> rank(chosen) >= rank(other)
        }),
{
    lemma_selection_is_sound(world, dest, point, rotation, speed, ship_id);
    lemma_selection_is_best(world, dest, point, rotation, speed, ship_id, other);
}

/// The place of a move in the order in which the planner considers the
/// moves.
pub open spec fn rank(action: Action) -> int {
    match action {
        Action::WAIT => 0,
        Action::PORT => 1,
        Action::STARBOARD => 2,
        Action::FASTER => 3,
        Action::SLOWER => 4,
        _ => -1,
    }
}

/// At the last ply and beyond, a move is worth what lies under the ship
/// where the move ends and what it gains on the way: nothing is looked up
/// further ahead.
pub proof fn lemma_last_ply(
    world: GameView,
    dest: Point,
    point: Point,
    rotation: int,
    speed: int,
    action: Action,
    depth: int,
    ship_id: int,
)
    requires
        depth >= MAX_DEPTH,
    ensures
        world.evaluate(dest, point, rotation, speed, action, depth, ship_id) == world.evaluate(
            dest,
            point,
            rotation,
            speed,
            action,
            MAX_DEPTH as int,
            ship_id,
        ),
{
    lemma_evaluate_unfolds(world, dest, point, rotation, speed, action, depth, ship_id);
    lemma_evaluate_unfolds(world, dest, point, rotation, speed, action, MAX_DEPTH as int, ship_id);
}

} // verus!
