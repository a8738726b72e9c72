//! Laws of the turn.

use vstd::prelude::*;
use crate::action::Action;
use crate::entity::Ship;
use crate::game::GameView;
use crate::field_laws::{
    lemma_barrel_cells_ignore_stale,
    lemma_fire_map_ignores_stale,
    lemma_mine_cells_ignore_stale,
};
use crate::geometry::Point;
use crate::planner::{MAX_DEPTH, lemma_evaluate_unfolds, lemma_lookahead_unfolds};
use crate::planner_laws::lemma_choice_is_move;
use crate::targeting_laws::{
    lemma_first_imminent_ignores_stale,
    lemma_no_enemy_no_target,
    lemma_searches_ignore_stale,
    lemma_targets_are_live,
    same_live_entities,
};
use crate::turn::{COOLDOWN, ship_after};

verus! {

/// How many of the first `n` own ships were reported in the current tick.
pub open spec fn live_ships(world: GameView, n: nat) -> nat
    decreases n,
{
    if n == 0 {
        0
    } else if world.my_ships[n - 1].live(world.current_tick) {
        live_ships(world, (n - 1) as nat) + 1
    } else {
        live_ships(world, (n - 1) as nat)
    }
}

/// A ship either fires or makes one of the five moves; it never drops a
/// mine.
pub proof fn lemma_decision_fires_or_moves(world: GameView, ship: Ship)
    ensures
        world.decision(ship).0 is FIRE || world.decision(ship).0.is_move(),
{
    let (dest, wp_ind) = world.destination(ship);
    lemma_choice_is_move(world, dest, ship.point, ship.rotation as int, ship.speed as int, ship.entity_id as int);
}

/// A ship whose cooldown runs does not fire.
pub proof fn lemma_cooldown_forbids_fire(world: GameView, ship: Ship)
    requires
        ship.cd != 0,
    ensures
        world.decision(ship).0.is_move(),
{
    lemma_decision_fires_or_moves(world, ship);
}

/// A running cooldown is shorter by exactly one after the next report of the
/// ship, and a cooldown that has run out stays as it is.
pub proof fn lemma_report_counts_down(ship: Ship, tick: i32, x: i32, y: i32, rotation: i32, speed: i32, rum: i32)
    ensures
        ship.cd > 0 ==> ship.updated(tick, x, y, rotation, speed, rum).cd == ship.cd - 1,
        ship.cd <= 0 ==> ship.updated(tick, x, y, rotation, speed, rum).cd == ship.cd,
{
}

/// A ship that fires may not fire in the turn after: when it is reported
/// next, its cooldown still runs.
pub proof fn lemma_shot_starts_cooldown(
    world: GameView,
    ship: Ship,
    tick: i32,
    x: i32,
    y: i32,
    rotation: i32,
    speed: i32,
    rum: i32,
)
    requires
        world.decision(ship).0 is FIRE,
    ensures
        ship_after(ship, world.decision(ship).0, world.decision(ship).1).cd == COOLDOWN,
        ship_after(ship, world.decision(ship).0, world.decision(ship).1).updated(tick, x, y, rotation, speed, rum).cd
            == COOLDOWN - 1,
{
}

/// Where no enemy was reported in the current tick, no ship fires.
pub proof fn lemma_no_enemy_no_fire(world: GameView, ship: Ship)
    requires
        forall|i: int| 0 <= i < world.enemy_ships.len() ==> !(#[trigger] world.enemy_ships[i]).live(world.current_tick),
    ensures
        world.decision(ship).0.is_move(),
{
    lemma_no_enemy_no_target(world, ship, ship.point);
    lemma_decision_fires_or_moves(world, ship);
}

/// The turn gives exactly one action to every own ship that was reported in
/// the current tick, and none to the others.
pub proof fn lemma_one_action_per_live_ship(world: GameView, n: nat)
    ensures
        world.turn_actions(n).len() == live_ships(world, n),
    decreases n,
{
    if n > 0 {
        lemma_one_action_per_live_ship(world, (n - 1) as nat);
    }
}

/// Every action of a turn is a shot or one of the five moves.
pub proof fn lemma_turn_fires_or_moves(world: GameView, n: nat, k: int)
    requires
        0 <= k < world.turn_actions(n).len(),
    ensures
        world.turn_actions(n)[k] is FIRE || world.turn_actions(n)[k].is_move(),
    decreases n,
{
    if n > 0 {
        let ship = world.my_ships[n - 1];
        if ship.live(world.current_tick) && k == world.turn_actions(n).len() - 1 {
            lemma_decision_fires_or_moves(world, ship);
        } else {
            lemma_turn_fires_or_moves(world, (n - 1) as nat, k);
        }
    }
}

/// Where no enemy was reported in the current tick, every action of the turn
/// is one of the five moves.
pub proof fn lemma_no_enemy_turn_moves(world: GameView, n: nat, k: int)
    requires
        forall|i: int| 0 <= i < world.enemy_ships.len() ==> !(#[trigger] world.enemy_ships[i]).live(world.current_tick),
        0 <= k < world.turn_actions(n).len(),
    ensures
        world.turn_actions(n)[k].is_move(),
    decreases n,
{
    if n > 0 {
        let ship = world.my_ships[n - 1];
        if ship.live(world.current_tick) && k == world.turn_actions(n).len() - 1 {
            lemma_no_enemy_no_fire(world, ship);
        } else {
            lemma_no_enemy_turn_moves(world, (n - 1) as nat, k);
        }
    }
}

/// The turn changes nothing but the cooldown and the waypoint index of own
/// ships that were reported in the current tick.
pub proof fn lemma_turn_frame(world: GameView, i: int)
    requires
        0 <= i < world.my_ships.len(),
    ensures
        world.after_turn().my_ships.len() == world.my_ships.len(),
        world.after_turn().enemy_ships == world.enemy_ships,
        world.after_turn().barrels == world.barrels,
        world.after_turn().mines == world.mines,
        world.after_turn().cannonballs == world.cannonballs,
        world.after_turn().current_tick == world.current_tick,
        !world.my_ships[i].live(world.current_tick) ==> world.after_turn().my_ships[i] == world.my_ships[i],
        world.after_turn().my_ships[i] == (Ship {
            cd: world.after_turn().my_ships[i].cd,
            wp_ind: world.after_turn().my_ships[i].wp_ind,
            ..world.my_ships[i]
        }),
{
}

/// Whether another live ship covers `cell` depends on the reported ships
/// alone.
pub proof fn lemma_blocked_ignores_stale(a: GameView, b: GameView, cell: Point, ship_id: int)
    requires
        same_live_entities(a, b),
    ensures
        a.blocked(cell, ship_id) == b.blocked(cell, ship_id),
{
    if a.blocked(cell, ship_id) {
        if exists|i: int| a.own_blocker(i, cell, ship_id) {
            let i = choose|i: int| a.own_blocker(i, cell, ship_id);
            assert(b.own_blocker(i, cell, ship_id));
        } else {
            let i = choose|i: int| a.enemy_blocker(i, cell);
            assert(b.enemy_blocker(i, cell));
        }
    }
    if b.blocked(cell, ship_id) {
        if exists|i: int| b.own_blocker(i, cell, ship_id) {
            let i = choose|i: int| b.own_blocker(i, cell, ship_id);
            assert(a.own_blocker(i, cell, ship_id));
        } else {
            let i = choose|i: int| b.enemy_blocker(i, cell);
            assert(a.enemy_blocker(i, cell));
        }
    }
}

/// Where a simulated ship comes to lie depends on the reported ships alone.
pub proof fn lemma_advance_ignores_stale(
    a: GameView,
    b: GameView,
    point: Point,
    rotation: int,
    steps: int,
    ship_id: int,
)
    requires
        same_live_entities(a, b),
    ensures
        a.advance(point, rotation, steps, ship_id) == b.advance(point, rotation, steps, ship_id),
    decreases steps,
{
    if steps > 0 {
        let next = point.spec_neighbour(rotation);
        lemma_blocked_ignores_stale(a, b, next.spec_neighbour(rotation), ship_id);
        lemma_advance_ignores_stale(a, b, next, rotation, steps - 1, ship_id);
    }
}

/// Whether two worlds have the same hazard field.
pub open spec fn same_field(a: GameView, b: GameView) -> bool {
    &&& a.under_fire == b.under_fire
    &&& a.mine_field == b.mine_field
    &&& a.barrels_field == b.barrels_field
}

/// The value of a position depends on the hazard field alone.
pub proof fn lemma_position_value_of_field(a: GameView, b: GameView, point: Point, rotation: int)
    requires
        same_field(a, b),
    ensures
        a.position_value(point, rotation) == b.position_value(point, rotation),
{
    reveal(GameView::position_value);
}

/// The value of a move depends on the hazard field and the reported ships
/// alone.
pub proof fn lemma_evaluate_ignores_stale(
    a: GameView,
    b: GameView,
    dest: Point,
    point: Point,
    rotation: int,
    speed: int,
    action: Action,
    depth: int,
    ship_id: int,
)
    requires
        same_live_entities(a, b),
        same_field(a, b),
    ensures
        a.evaluate(dest, point, rotation, speed, action, depth, ship_id) == b.evaluate(
            dest,
            point,
            rotation,
            speed,
            action,
            depth,
            ship_id,
        ),
    decreases MAX_DEPTH - depth, 0int,
{
    let moved_speed = action.speed_after(speed);
    let turned = action.rotation_after(rotation);
    lemma_evaluate_unfolds(a, dest, point, rotation, speed, action, depth, ship_id);
    lemma_evaluate_unfolds(b, dest, point, rotation, speed, action, depth, ship_id);
    lemma_advance_ignores_stale(a, b, point, rotation, moved_speed, ship_id);
    let cell = a.advance(point, rotation, moved_speed, ship_id).0;
    lemma_blocked_ignores_stale(a, b, cell.spec_neighbour(turned), ship_id);
    lemma_position_value_of_field(a, b, cell, rotation);
    lemma_position_value_of_field(a, b, cell, turned);
    if depth < MAX_DEPTH {
        lemma_lookahead_ignores_stale(a, b, dest, cell, turned, moved_speed, depth + 1, ship_id);
    }
}

/// The best value of a ply depends on the hazard field and the reported
/// ships alone.
pub proof fn lemma_lookahead_ignores_stale(
    a: GameView,
    b: GameView,
    dest: Point,
    point: Point,
    rotation: int,
    speed: int,
    depth: int,
    ship_id: int,
)
    requires
        same_live_entities(a, b),
        same_field(a, b),
        depth <= MAX_DEPTH,
    ensures
        a.lookahead(dest, point, rotation, speed, depth, ship_id) == b.lookahead(
            dest,
            point,
            rotation,
            speed,
            depth,
            ship_id,
        ),
    decreases MAX_DEPTH - depth, 1int,
{
    lemma_lookahead_unfolds(a, dest, point, rotation, speed, depth, ship_id);
    lemma_lookahead_unfolds(b, dest, point, rotation, speed, depth, ship_id);
    lemma_evaluate_ignores_stale(a, b, dest, point, rotation, speed, Action::WAIT, depth, ship_id);
    lemma_evaluate_ignores_stale(a, b, dest, point, rotation, speed, Action::PORT, depth, ship_id);
    lemma_evaluate_ignores_stale(a, b, dest, point, rotation, speed, Action::STARBOARD, depth, ship_id);
    lemma_evaluate_ignores_stale(a, b, dest, point, rotation, speed, Action::FASTER, depth, ship_id);
    lemma_evaluate_ignores_stale(a, b, dest, point, rotation, speed, Action::SLOWER, depth, ship_id);
}

/// What a ship does depends on the hazard field and the reported entities
/// alone: an entity that was not reported in the current tick has no part in
/// any decision, whatever its record holds.
pub proof fn lemma_decision_ignores_stale(a: GameView, b: GameView, ship: Ship)
    requires
        same_live_entities(a, b),
        same_field(a, b),
    ensures
        a.decision(ship) == b.decision(ship),
{
    lemma_searches_ignore_stale(a, b, ship, ship.point);
    lemma_first_imminent_ignores_stale(a, b, ship, a.enemy_ships.len());
    lemma_targets_are_live(a, ship, ship.point);
    lemma_targets_are_live(b, ship, ship.point);
    let (dest, wp_ind) = a.destination(ship);
    assert(b.destination(ship) == (dest, wp_ind));
    let rotation = ship.rotation as int;
    let speed = ship.speed as int;
    let id = ship.entity_id as int;
    lemma_evaluate_ignores_stale(a, b, dest, ship.point, rotation, speed, Action::WAIT, 1, id);
    lemma_evaluate_ignores_stale(a, b, dest, ship.point, rotation, speed, Action::PORT, 1, id);
    lemma_evaluate_ignores_stale(a, b, dest, ship.point, rotation, speed, Action::STARBOARD, 1, id);
    lemma_evaluate_ignores_stale(a, b, dest, ship.point, rotation, speed, Action::FASTER, 1, id);
    lemma_evaluate_ignores_stale(a, b, dest, ship.point, rotation, speed, Action::SLOWER, 1, id);
}

/// The hazard field that is built depends on the reported entities alone,
/// and building it keeps two worlds in agreement on them.
pub proof fn lemma_rebuilt_ignores_stale(a: GameView, b: GameView)
    requires
        same_live_entities(a, b),
    ensures
        same_field(a.rebuilt(), b.rebuilt()),
        same_live_entities(a.rebuilt(), b.rebuilt()),
{
    let tick = a.current_tick;
    lemma_fire_map_ignores_stale(a.cannonballs, b.cannonballs, tick, a.cannonballs.len());
    lemma_mine_cells_ignore_stale(a.mines, b.mines, tick, a.mines.len());
    lemma_barrel_cells_ignore_stale(a.barrels, b.barrels, tick, a.barrels.len());
}

/// The actions of a turn depend on the hazard field and the reported
/// entities alone.
pub proof fn lemma_turn_actions_ignore_stale(a: GameView, b: GameView, n: nat)
    requires
        same_live_entities(a, b),
        same_field(a, b),
        n <= a.my_ships.len(),
    ensures
        a.turn_actions(n) == b.turn_actions(n),
    decreases n,
{
    if n > 0 {
        lemma_turn_actions_ignore_stale(a, b, (n - 1) as nat);
        if a.my_ships[n - 1].live(a.current_tick) {
            lemma_decision_ignores_stale(a, b, a.my_ships[n - 1]);
        }
    }
}

/// An entity that was not reported in the current tick has no part in the
/// turn: once the field is built, two worlds that agree on the reported
/// entities answer with the same actions, whatever the records of the
/// others hold.
pub proof fn lemma_turn_ignores_stale(a: GameView, b: GameView)
    requires
        same_live_entities(a, b),
    ensures
        a.rebuilt().turn_actions(a.my_ships.len()) == b.rebuilt().turn_actions(b.my_ships.len()),
{
    lemma_rebuilt_ignores_stale(a, b);
    lemma_turn_actions_ignore_stale(a.rebuilt(), b.rebuilt(), a.my_ships.len());
}

} // verus!
