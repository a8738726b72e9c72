//! The invariant of the world holds in every state that the library reaches.

use vstd::prelude::*;
use crate::game::{GameView, barrels_wf, cannonballs_wf, mines_wf, ships_wf};
use crate::entity::{Barrel, Cannoball, Mine, Ship};
use crate::observe::{
    barrel_ids,
    barrels_with,
    cannonball_ids,
    cannonballs_with,
    first_index,
    lemma_first_index,
    mine_ids,
    mines_with,
    ship_ids,
    ships_with,
};
use crate::observe_laws::lemma_sighting_wf;
use crate::snapshot::{EntityRecord, Sighting, sighting_of};
use crate::targeting::waypoint_index;

verus! {

/// The world before the first snapshot satisfies the invariant.
pub proof fn lemma_empty_wf()
    ensures
        GameView::empty().wf(),
{
}

/// Entering the report of a ship keeps the ships well formed.
pub proof fn lemma_ships_with_wf(ships: Seq<Ship>, tick: int, report: Ship)
    requires
        0 <= tick <= i32::MAX,
        ships_wf(ships, tick),
        report.wf(),
        report.tick_accessed == 0,
        ships_with(ships, tick, report) is Ok,
    ensures
        ships_wf(ships_with(ships, tick, report)->Ok_0, tick),
{
    lemma_first_index(ship_ids(ships), report.entity_id as int, ships.len());
    let after = ships_with(ships, tick, report)->Ok_0;
    match first_index(ship_ids(ships), report.entity_id as int, ships.len()) {
        Some(k) => {
            assert forall|i: int, j: int| 0 <= i < j < after.len() implies (#[trigger] after[i]).entity_id
                != (#[trigger] after[j]).entity_id by {
                assert(ships[i].entity_id != ships[j].entity_id);
            }
        },
        None => {
            assert forall|i: int, j: int| 0 <= i < j < after.len() implies (#[trigger] after[i]).entity_id
                != (#[trigger] after[j]).entity_id by {
                if j < ships.len() {
                    assert(ships[i].entity_id != ships[j].entity_id);
                } else {
                    assert(ship_ids(ships)[i] == ships[i].entity_id);
                }
            }
        },
    }
}

/// Entering the report of a barrel keeps the barrels well formed.
pub proof fn lemma_barrels_with_wf(barrels: Seq<Barrel>, tick: int, report: Barrel)
    requires
        0 <= tick <= i32::MAX,
        barrels_wf(barrels, tick),
        report.wf(),
        report.tick_accessed == 0,
        barrels_with(barrels, tick, report) is Ok,
    ensures
        barrels_wf(barrels_with(barrels, tick, report)->Ok_0, tick),
{
    lemma_first_index(barrel_ids(barrels), report.entity_id as int, barrels.len());
    let after = barrels_with(barrels, tick, report)->Ok_0;
    match first_index(barrel_ids(barrels), report.entity_id as int, barrels.len()) {
        Some(k) => {
            assert forall|i: int, j: int| 0 <= i < j < after.len() implies (#[trigger] after[i]).entity_id
                != (#[trigger] after[j]).entity_id by {
                assert(barrels[i].entity_id != barrels[j].entity_id);
            }
        },
        None => {
            assert forall|i: int, j: int| 0 <= i < j < after.len() implies (#[trigger] after[i]).entity_id
                != (#[trigger] after[j]).entity_id by {
                if j < barrels.len() {
                    assert(barrels[i].entity_id != barrels[j].entity_id);
                } else {
                    assert(barrel_ids(barrels)[i] == barrels[i].entity_id);
                }
            }
        },
    }
}

/// Entering the report of a mine keeps the mines well formed.
pub proof fn lemma_mines_with_wf(mines: Seq<Mine>, tick: int, report: Mine)
    requires
        0 <= tick <= i32::MAX,
        mines_wf(mines, tick),
        report.wf(),
        report.tick_accessed == 0,
        mines_with(mines, tick, report) is Ok,
    ensures
        mines_wf(mines_with(mines, tick, report)->Ok_0, tick),
{
    lemma_first_index(mine_ids(mines), report.entity_id as int, mines.len());
    let after = mines_with(mines, tick, report)->Ok_0;
    match first_index(mine_ids(mines), report.entity_id as int, mines.len()) {
        Some(k) => {
            assert forall|i: int, j: int| 0 <= i < j < after.len() implies (#[trigger] after[i]).entity_id
                != (#[trigger] after[j]).entity_id by {
                assert(mines[i].entity_id != mines[j].entity_id);
            }
        },
        None => {
            assert forall|i: int, j: int| 0 <= i < j < after.len() implies (#[trigger] after[i]).entity_id
                != (#[trigger] after[j]).entity_id by {
                if j < mines.len() {
                    assert(mines[i].entity_id != mines[j].entity_id);
                } else {
                    assert(mine_ids(mines)[i] == mines[i].entity_id);
                }
            }
        },
    }
}

/// Entering the report of a cannonball keeps the cannonballs well formed:
/// a cannonball is counted down at most once in a tick, so its count never
/// falls below the negated tick.
pub proof fn lemma_cannonballs_with_wf(balls: Seq<Cannoball>, tick: int, report: Cannoball)
    requires
        0 <= tick <= i32::MAX,
        cannonballs_wf(balls, tick),
        report.wf(),
        report.tick_accessed == 0,
        cannonballs_with(balls, tick, report) is Ok,
    ensures
        cannonballs_wf(cannonballs_with(balls, tick, report)->Ok_0, tick),
{
    lemma_first_index(cannonball_ids(balls), report.entity_id as int, balls.len());
    let after = cannonballs_with(balls, tick, report)->Ok_0;
    match first_index(cannonball_ids(balls), report.entity_id as int, balls.len()) {
        Some(k) => {
            assert forall|i: int, j: int| 0 <= i < j < after.len() implies (#[trigger] after[i]).entity_id
                != (#[trigger] after[j]).entity_id by {
                assert(balls[i].entity_id != balls[j].entity_id);
            }
        },
        None => {
            assert forall|i: int, j: int| 0 <= i < j < after.len() implies (#[trigger] after[i]).entity_id
                != (#[trigger] after[j]).entity_id by {
                if j < balls.len() {
                    assert(balls[i].entity_id != balls[j].entity_id);
                } else {
                    assert(cannonball_ids(balls)[i] == balls[i].entity_id);
                }
            }
        },
    }
}

/// Entering a sighting keeps the invariant.
pub proof fn lemma_observed_wf(world: GameView, sighting: Sighting)
    requires
        world.wf(),
        sighting.wf(),
        world.observed(sighting) is Ok,
    ensures
        world.observed(sighting)->Ok_0.wf(),
{
    let tick = world.current_tick;
    match sighting {
        Sighting::OwnShip(ship) => {
            lemma_ships_with_wf(world.my_ships, tick, ship);
        },
        Sighting::EnemyShip(ship) => {
            lemma_ships_with_wf(world.enemy_ships, tick, ship);
        },
        Sighting::Barrel(barrel) => {
            lemma_barrels_with_wf(world.barrels, tick, barrel);
        },
        Sighting::Mine(mine) => {
            lemma_mines_with_wf(world.mines, tick, mine);
        },
        Sighting::Cannonball(ball) => {
            lemma_cannonballs_with_wf(world.cannonballs, tick, ball);
        },
    }
}

/// Taking records in keeps the invariant.
pub proof fn lemma_absorbed_wf(world: GameView, records: Seq<EntityRecord>, n: nat)
    requires
        world.wf(),
        n <= records.len(),
        world.absorbed(records, n) is Ok,
    ensures
        world.absorbed(records, n)->Ok_0.wf(),
    decreases n,
{
    if n > 0 {
        lemma_absorbed_wf(world, records, (n - 1) as nat);
        lemma_sighting_wf(records[n - 1]);
        lemma_observed_wf(world.absorbed(records, (n - 1) as nat)->Ok_0, sighting_of(records[n - 1])->Ok_0);
    }
}

/// What is left of a snapshot that was not taken in satisfies the invariant.
pub proof fn lemma_salvaged_wf(world: GameView, records: Seq<EntityRecord>, n: nat)
    requires
        world.wf(),
        n <= records.len(),
    ensures
        world.salvaged(records, n).wf(),
    decreases n,
{
    if n > 0 {
        if world.absorbed(records, n) is Ok {
            lemma_absorbed_wf(world, records, n);
        } else {
            lemma_salvaged_wf(world, records, (n - 1) as nat);
        }
    }
}

/// Advancing the tick keeps the invariant, as long as the counter has room.
pub proof fn lemma_next_tick_wf(world: GameView)
    requires
        world.wf(),
        world.current_tick < i32::MAX,
    ensures
        world.next_tick().wf(),
{
}

/// Building the hazard field keeps the invariant.
pub proof fn lemma_rebuilt_wf(world: GameView)
    requires
        world.wf(),
    ensures
        world.rebuilt().wf(),
{
    let after = world.rebuilt().mines;
    assert forall|i: int, j: int| 0 <= i < j < after.len() implies (#[trigger] after[i]).entity_id
                != (#[trigger] after[j]).entity_id by {
        assert(world.mines[i].entity_id != world.mines[j].entity_id);
    }
    assert forall|i: int| 0 <= i < after.len() implies (#[trigger] after[i]).wf() && after[i].tick_accessed
        <= world.current_tick by {
        assert(world.mines[i].wf());
    }
}

/// Making the turn keeps the invariant.
pub proof fn lemma_after_turn_wf(world: GameView)
    requires
        world.wf(),
    ensures
        world.after_turn().wf(),
{
    let after = world.after_turn().my_ships;
    assert forall|i: int, j: int| 0 <= i < j < after.len() implies (#[trigger] after[i]).entity_id
                != (#[trigger] after[j]).entity_id by {
        assert(world.my_ships[i].entity_id != world.my_ships[j].entity_id);
    }
    assert forall|i: int| 0 <= i < after.len() implies (#[trigger] after[i]).wf() && after[i].tick_accessed
        <= world.current_tick by {
        let ship = world.my_ships[i];
        assert(ship.wf());
        assert(0 <= waypoint_index(ship) < 4);
        assert(world.decision(ship).1 == ship.wp_ind || world.decision(ship).1 == waypoint_index(ship));
    }
}

/// A world that satisfies the invariant does so after a snapshot and the turn
/// that follows it.
pub proof fn lemma_snapshot_taken_wf(world: GameView, records: Seq<EntityRecord>)
    requires
        world.wf(),
        world.snapshot_taken(records) is Ok,
    ensures
        world.snapshot_taken(records)->Ok_0.0.wf(),
{
    lemma_absorbed_wf(world, records, records.len());
    let taken = world.absorbed(records, records.len())->Ok_0;
    lemma_rebuilt_wf(taken);
    lemma_after_turn_wf(taken.rebuilt());
}

} // verus!
