//! Laws of taking a snapshot in.

use vstd::prelude::*;
use crate::entity::{Barrel, Cannoball, Mine, Ship};
use crate::game::GameView;
use crate::observe::{
    barrel_ids,
    barrels_with,
    cannonball_ids,
    cannonballs_with,
    first_index,
    lemma_first_index,
    mine_ids,
    mines_with,
    ship_ids,
    ships_with,
};
use crate::snapshot::{EntityRecord, Sighting, sighting_of};

verus! {

/// Whether `after` holds every ship of `before` in its place, either as it
/// was or reported in `tick`, and behind them only ships reported in `tick`.
pub open spec fn ships_refreshed(before: Seq<Ship>, after: Seq<Ship>, tick: int) -> bool {
    &&& before.len() <= after.len()
    &&& forall|i: int|
        0 <= i < before.len() ==> (#[trigger] after[i]).entity_id == before[i].entity_id && (after[i] == before[i]
            || after[i].live(tick))
    &&& forall|i: int| before.len() <= i < after.len() ==> (#[trigger] after[i]).live(tick)
}

/// Whether `after` holds every barrel of `before` in its place, either as it
/// was or reported in `tick`, and behind them only barrels reported in
/// `tick`.
pub open spec fn barrels_refreshed(before: Seq<Barrel>, after: Seq<Barrel>, tick: int) -> bool {
    &&& before.len() <= after.len()
    &&& forall|i: int|
        0 <= i < before.len() ==> (#[trigger] after[i]).entity_id == before[i].entity_id && (after[i] == before[i]
            || after[i].live(tick))
    &&& forall|i: int| before.len() <= i < after.len() ==> (#[trigger] after[i]).live(tick)
}

/// Whether `after` holds every mine of `before` in its place, either as it
/// was or reported in `tick`, and behind them only mines reported in `tick`.
pub open spec fn mines_refreshed(before: Seq<Mine>, after: Seq<Mine>, tick: int) -> bool {
    &&& before.len() <= after.len()
    &&& forall|i: int|
        0 <= i < before.len() ==> (#[trigger] after[i]).entity_id == before[i].entity_id && (after[i] == before[i]
            || after[i].live(tick))
    &&& forall|i: int| before.len() <= i < after.len() ==> (#[trigger] after[i]).live(tick)
}

/// Whether `after` holds every cannonball of `before` in its place, either
/// as it was or reported in `tick`, and behind them only cannonballs
/// reported in `tick`.
pub open spec fn cannonballs_refreshed(before: Seq<Cannoball>, after: Seq<Cannoball>, tick: int) -> bool {
    &&& before.len() <= after.len()
    &&& forall|i: int|
        0 <= i < before.len() ==> (#[trigger] after[i]).entity_id == before[i].entity_id && (after[i] == before[i]
            || after[i].live(tick))
    &&& forall|i: int| before.len() <= i < after.len() ==> (#[trigger] after[i]).live(tick)
}

/// Whether `after` is `before` with some entities reported in the tick of
/// the two: no record is lost or moved, and a record changes only by being
/// reported.
pub open spec fn refreshed(before: GameView, after: GameView) -> bool {
    let tick = before.current_tick;
    &&& after.current_tick == tick
    &&& ships_refreshed(before.my_ships, after.my_ships, tick)
    &&& ships_refreshed(before.enemy_ships, after.enemy_ships, tick)
    &&& barrels_refreshed(before.barrels, after.barrels, tick)
    &&& mines_refreshed(before.mines, after.mines, tick)
    &&& cannonballs_refreshed(before.cannonballs, after.cannonballs, tick)
    &&& after.under_fire == before.under_fire
    &&& after.mine_field == before.mine_field
    &&& after.barrels_field == before.barrels_field
}

/// Whether no entity of the world was reported in its tick.
pub open spec fn all_stale(world: GameView) -> bool {
    let tick = world.current_tick;
    &&& forall|i: int| 0 <= i < world.my_ships.len() ==> !(#[trigger] world.my_ships[i]).live(tick)
    &&& forall|i: int| 0 <= i < world.enemy_ships.len() ==> !(#[trigger] world.enemy_ships[i]).live(tick)
    &&& forall|i: int| 0 <= i < world.barrels.len() ==> !(#[trigger] world.barrels[i]).live(tick)
    &&& forall|i: int| 0 <= i < world.mines.len() ==> !(#[trigger] world.mines[i]).live(tick)
    &&& forall|i: int| 0 <= i < world.cannonballs.len() ==> !(#[trigger] world.cannonballs[i]).live(tick)
}

/// The identity that a sighting reports.
pub open spec fn identity(sighting: Sighting) -> int {
    match sighting {
        Sighting::OwnShip(ship) => ship.entity_id as int,
        Sighting::EnemyShip(ship) => ship.entity_id as int,
        Sighting::Barrel(barrel) => barrel.entity_id as int,
        Sighting::Mine(mine) => mine.entity_id as int,
        Sighting::Cannonball(ball) => ball.entity_id as int,
    }
}

/// Whether the world holds a live entity of the kind and identity that
/// `sighting` reports.
pub open spec fn holds_live(world: GameView, sighting: Sighting) -> bool {
    let tick = world.current_tick;
    let id = identity(sighting);
    match sighting {
        Sighting::OwnShip(_) => exists|k: int|
            0 <= k < world.my_ships.len() && (#[trigger] world.my_ships[k]).entity_id == id && world.my_ships[k].live(
                tick,
            ),
        Sighting::EnemyShip(_) => exists|k: int|
            0 <= k < world.enemy_ships.len() && (#[trigger] world.enemy_ships[k]).entity_id == id
                && world.enemy_ships[k].live(tick),
        Sighting::Barrel(_) => exists|k: int|
            0 <= k < world.barrels.len() && (#[trigger] world.barrels[k]).entity_id == id && world.barrels[k].live(
                tick,
            ),
        Sighting::Mine(_) => exists|k: int|
            0 <= k < world.mines.len() && (#[trigger] world.mines[k]).entity_id == id && world.mines[k].live(tick),
        Sighting::Cannonball(_) => exists|k: int|
            0 <= k < world.cannonballs.len() && (#[trigger] world.cannonballs[k]).entity_id == id
                && world.cannonballs[k].live(tick),
    }
}

/// When the tick advances, every entity becomes stale until it is reported
/// again; its record stays.
pub proof fn lemma_next_tick_all_stale(world: GameView)
    requires
        world.wf(),
    ensures
        all_stale(world.next_tick()),
        world.next_tick().my_ships == world.my_ships,
        world.next_tick().enemy_ships == world.enemy_ships,
        world.next_tick().barrels == world.barrels,
        world.next_tick().mines == world.mines,
        world.next_tick().cannonballs == world.cannonballs,
{
}

/// A report of a ship touches the record of that ship alone, and leaves a
/// live ship with the reported identity.
pub proof fn lemma_ships_with(ships: Seq<Ship>, tick: int, report: Ship)
    requires
        0 <= tick <= i32::MAX,
        report.tick_accessed == 0,
        ships_with(ships, tick, report) is Ok,
    ensures
        ships_refreshed(ships, ships_with(ships, tick, report)->Ok_0, tick),
        exists|k: int|
            0 <= k < ships_with(ships, tick, report)->Ok_0.len() && (#[trigger] ships_with(
                ships,
                tick,
                report,
            )->Ok_0[k]).entity_id == report.entity_id && ships_with(ships, tick, report)->Ok_0[k].live(tick),
{
    lemma_first_index(ship_ids(ships), report.entity_id as int, ships.len());
    let after = ships_with(ships, tick, report)->Ok_0;
    match first_index(ship_ids(ships), report.entity_id as int, ships.len()) {
        Some(k) => {
            assert(after[k].entity_id == report.entity_id && after[k].live(tick));
        },
        None => {
            let k = ships.len() as int;
            assert(after[k].entity_id == report.entity_id && after[k].live(tick));
        },
    }
}

/// A report of a barrel touches the record of that barrel alone, and leaves
/// a live barrel with the reported identity.
pub proof fn lemma_barrels_with(barrels: Seq<Barrel>, tick: int, report: Barrel)
    requires
        0 <= tick <= i32::MAX,
        report.tick_accessed == 0,
        barrels_with(barrels, tick, report) is Ok,
    ensures
        barrels_refreshed(barrels, barrels_with(barrels, tick, report)->Ok_0, tick),
        exists|k: int|
            0 <= k < barrels_with(barrels, tick, report)->Ok_0.len() && (#[trigger] barrels_with(
                barrels,
                tick,
                report,
            )->Ok_0[k]).entity_id == report.entity_id && barrels_with(barrels, tick, report)->Ok_0[k].live(tick),
{
    lemma_first_index(barrel_ids(barrels), report.entity_id as int, barrels.len());
    let after = barrels_with(barrels, tick, report)->Ok_0;
    match first_index(barrel_ids(barrels), report.entity_id as int, barrels.len()) {
        Some(k) => {
            assert(after[k].entity_id == report.entity_id && after[k].live(tick));
        },
        None => {
            let k = barrels.len() as int;
            assert(after[k].entity_id == report.entity_id && after[k].live(tick));
        },
    }
}

/// A report of a mine touches the record of that mine alone, and leaves a
/// live mine with the reported identity.
pub proof fn lemma_mines_with(mines: Seq<Mine>, tick: int, report: Mine)
    requires
        0 <= tick <= i32::MAX,
        report.tick_accessed == 0,
        mines_with(mines, tick, report) is Ok,
    ensures
        mines_refreshed(mines, mines_with(mines, tick, report)->Ok_0, tick),
        exists|k: int|
            0 <= k < mines_with(mines, tick, report)->Ok_0.len() && (#[trigger] mines_with(
                mines,
                tick,
                report,
            )->Ok_0[k]).entity_id == report.entity_id && mines_with(mines, tick, report)->Ok_0[k].live(tick),
{
    lemma_first_index(mine_ids(mines), report.entity_id as int, mines.len());
    let after = mines_with(mines, tick, report)->Ok_0;
    match first_index(mine_ids(mines), report.entity_id as int, mines.len()) {
        Some(k) => {
            assert(after[k].entity_id == report.entity_id && after[k].live(tick));
        },
        None => {
            let k = mines.len() as int;
            assert(after[k].entity_id == report.entity_id && after[k].live(tick));
        },
    }
}

/// A report of a cannonball touches the record of that cannonball alone, and
/// leaves a live cannonball with the reported identity.
pub proof fn lemma_cannonballs_with(balls: Seq<Cannoball>, tick: int, report: Cannoball)
    requires
        0 <= tick <= i32::MAX,
        report.tick_accessed == 0,
        cannonballs_with(balls, tick, report) is Ok,
    ensures
        cannonballs_refreshed(balls, cannonballs_with(balls, tick, report)->Ok_0, tick),
        exists|k: int|
            0 <= k < cannonballs_with(balls, tick, report)->Ok_0.len() && (#[trigger] cannonballs_with(
                balls,
                tick,
                report,
            )->Ok_0[k]).entity_id == report.entity_id && cannonballs_with(balls, tick, report)->Ok_0[k].live(tick),
{
    lemma_first_index(cannonball_ids(balls), report.entity_id as int, balls.len());
    let after = cannonballs_with(balls, tick, report)->Ok_0;
    match first_index(cannonball_ids(balls), report.entity_id as int, balls.len()) {
        Some(k) => {
            assert(after[k].entity_id == report.entity_id && after[k].live(tick));
        },
        None => {
            let k = balls.len() as int;
            assert(after[k].entity_id == report.entity_id && after[k].live(tick));
        },
    }
}

/// Entering a sighting loses and moves no record, changes none but that of
/// the reported entity, and leaves that entity alive.
pub proof fn lemma_observed(world: GameView, sighting: Sighting)
    requires
        0 <= world.current_tick <= i32::MAX,
        sighting.wf(),
        world.observed(sighting) is Ok,
    ensures
        refreshed(world, world.observed(sighting)->Ok_0),
        holds_live(world.observed(sighting)->Ok_0, sighting),
{
    let tick = world.current_tick;
    match sighting {
        Sighting::OwnShip(ship) => {
            lemma_ships_with(world.my_ships, tick, ship);
        },
        Sighting::EnemyShip(ship) => {
            lemma_ships_with(world.enemy_ships, tick, ship);
        },
        Sighting::Barrel(barrel) => {
            lemma_barrels_with(world.barrels, tick, barrel);
        },
        Sighting::Mine(mine) => {
            lemma_mines_with(world.mines, tick, mine);
        },
        Sighting::Cannonball(ball) => {
            lemma_cannonballs_with(world.cannonballs, tick, ball);
        },
    }
}

/// Being refreshed carries over from one step to the next.
pub proof fn lemma_refreshed_transitive(a: GameView, b: GameView, c: GameView)
    requires
        refreshed(a, b),
        refreshed(b, c),
    ensures
        refreshed(a, c),
{
}

/// An entity that is alive stays alive and in its place while more
/// sightings of the same tick are entered.
pub proof fn lemma_holds_live_stays(before: GameView, after: GameView, sighting: Sighting)
    requires
        refreshed(before, after),
        holds_live(before, sighting),
    ensures
        holds_live(after, sighting),
{
    let tick = before.current_tick;
    let id = identity(sighting);
    match sighting {
        Sighting::OwnShip(_) => {
            let k = choose|k: int|
                0 <= k < before.my_ships.len() && (#[trigger] before.my_ships[k]).entity_id == id
                    && before.my_ships[k].live(tick);
            assert(after.my_ships[k].entity_id == id && after.my_ships[k].live(tick));
        },
        Sighting::EnemyShip(_) => {
            let k = choose|k: int|
                0 <= k < before.enemy_ships.len() && (#[trigger] before.enemy_ships[k]).entity_id == id
                    && before.enemy_ships[k].live(tick);
            assert(after.enemy_ships[k].entity_id == id && after.enemy_ships[k].live(tick));
        },
        Sighting::Barrel(_) => {
            let k = choose|k: int|
                0 <= k < before.barrels.len() && (#[trigger] before.barrels[k]).entity_id == id
                    && before.barrels[k].live(tick);
            assert(after.barrels[k].entity_id == id && after.barrels[k].live(tick));
        },
        Sighting::Mine(_) => {
            let k = choose|k: int|
                0 <= k < before.mines.len() && (#[trigger] before.mines[k]).entity_id == id && before.mines[k].live(
                    tick,
                );
            assert(after.mines[k].entity_id == id && after.mines[k].live(tick));
        },
        Sighting::Cannonball(_) => {
            let k = choose|k: int|
                0 <= k < before.cannonballs.len() && (#[trigger] before.cannonballs[k]).entity_id == id
                    && before.cannonballs[k].live(tick);
            assert(after.cannonballs[k].entity_id == id && after.cannonballs[k].live(tick));
        },
    }
}

/// Taking a snapshot in loses and moves no record and changes none but by a
/// report; and every entity that one of the records reports is alive
/// afterwards.
pub proof fn lemma_absorbed(world: GameView, records: Seq<EntityRecord>, n: nat)
    requires
        0 <= world.current_tick <= i32::MAX,
        n <= records.len(),
        world.absorbed(records, n) is Ok,
    ensures
        refreshed(world, world.absorbed(records, n)->Ok_0),
        forall|j: int|
            0 <= j < n ==> (#[trigger] sighting_of(records[j])) is Ok && holds_live(
                world.absorbed(records, n)->Ok_0,
                sighting_of(records[j])->Ok_0,
            ),
    decreases n,
{
    if n > 0 {
        let before = world.absorbed(records, (n - 1) as nat)->Ok_0;
        let after = world.absorbed(records, n)->Ok_0;
        lemma_absorbed(world, records, (n - 1) as nat);
        let sighting = sighting_of(records[n - 1])->Ok_0;
        lemma_sighting_wf(records[n - 1]);
        lemma_observed(before, sighting);
        lemma_refreshed_transitive(world, before, after);
        assert forall|j: int| 0 <= j < n implies (#[trigger] sighting_of(records[j])) is Ok && holds_live(
            after,
            sighting_of(records[j])->Ok_0,
        ) by {
            if j < n - 1 {
                lemma_holds_live_stays(before, after, sighting_of(records[j])->Ok_0);
            }
        }
    }
}

/// What a record is taken for is an entity as it is first recorded.
pub proof fn lemma_sighting_wf(record: EntityRecord)
    requires
        sighting_of(record) is Ok,
    ensures
        sighting_of(record)->Ok_0.wf(),
{
}

/// After a tick was played, the entities that are alive are those that the
/// snapshot reported: every reported entity is alive, and an entity that is
/// not alive has the record that it had before the tick.
pub proof fn lemma_live_means_reported(world: GameView, records: Seq<EntityRecord>)
    requires
        world.wf(),
        world.current_tick < i32::MAX,
        world.next_tick().absorbed(records, records.len()) is Ok,
    ensures
        all_stale(world.next_tick()),
        refreshed(world.next_tick(), world.next_tick().absorbed(records, records.len())->Ok_0),
        forall|j: int|
            0 <= j < records.len() ==> (#[trigger] sighting_of(records[j])) is Ok && holds_live(
                world.next_tick().absorbed(records, records.len())->Ok_0,
                sighting_of(records[j])->Ok_0,
            ),
{
    lemma_next_tick_all_stale(world);
    lemma_absorbed(world.next_tick(), records, records.len());
}

} // verus!
