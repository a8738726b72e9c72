//! Laws of the hazard field.

use vstd::prelude::*;
use crate::entity::{Barrel, Cannoball, Mine};
use crate::field::{barrel_cells, fire_map, marked_mines, mine_cells};
use crate::game::GameView;
use crate::geometry::Point;

verus! {

/// Whether the cannonball at index `i` is alive and aimed at `cell`.
pub open spec fn aims_at(balls: Seq<Cannoball>, tick: int, i: int, cell: Point) -> bool {
    0 <= i < balls.len() && balls[i].live(tick) && balls[i].target == cell
}

/// A cell is under fire exactly where a live cannonball is aimed at it, and
/// its entry is the least number of ticks that any such cannonball has left:
/// no live cannonball aimed there has fewer, and one has exactly that many.
pub proof fn lemma_fire_map(balls: Seq<Cannoball>, tick: int, n: nat, cell: Point)
    requires
        n <= balls.len(),
    ensures
        fire_map(balls, tick, n).contains_key(cell) <==> exists|i: int| i < n && aims_at(balls, tick, i, cell),
        forall|i: int|
            i < n && #[trigger] aims_at(balls, tick, i, cell) ==> fire_map(balls, tick, n)[cell]
                <= balls[i].impact_time,
        fire_map(balls, tick, n).contains_key(cell) ==> exists|i: int|
            i < n && #[trigger] aims_at(balls, tick, i, cell) && fire_map(balls, tick, n)[cell]
                == balls[i].impact_time,
    decreases n,
{
    if n > 0 {
        lemma_fire_map(balls, tick, (n - 1) as nat, cell);
        let rest = fire_map(balls, tick, (n - 1) as nat);
        let ball = balls[n - 1];
        if ball.live(tick) && ball.target == cell {
            assert(aims_at(balls, tick, n - 1, cell));
        }
        if rest.contains_key(cell) {
            let i = choose|i: int| i < n - 1 && aims_at(balls, tick, i, cell);
            assert(i < n && aims_at(balls, tick, i, cell));
            let j = choose|j: int|
                j < n - 1 && #[trigger] aims_at(balls, tick, j, cell) && rest[cell] == balls[j].impact_time;
            assert(j < n && aims_at(balls, tick, j, cell));
        }
    }
}

/// A cell holds a mine of the field exactly where a live mine lies in it.
pub proof fn lemma_mine_cells(mines: Seq<Mine>, tick: int, n: nat, cell: Point)
    requires
        n <= mines.len(),
    ensures
        mine_cells(mines, tick, n).contains(cell) <==> exists|i: int|
            0 <= i < n && (#[trigger] mines[i]).live(tick) && mines[i].point == cell,
    decreases n,
{
    if n > 0 {
        lemma_mine_cells(mines, tick, (n - 1) as nat, cell);
        if mine_cells(mines, tick, (n - 1) as nat).contains(cell) {
            let i = choose|i: int| 0 <= i < n - 1 && (#[trigger] mines[i]).live(tick) && mines[i].point == cell;
            assert(0 <= i < n && mines[i].live(tick) && mines[i].point == cell);
        }
    }
}

/// A cell holds a barrel of the field exactly where a live barrel lies in
/// it.
pub proof fn lemma_barrel_cells(barrels: Seq<Barrel>, tick: int, n: nat, cell: Point)
    requires
        n <= barrels.len(),
    ensures
        barrel_cells(barrels, tick, n).contains(cell) <==> exists|i: int|
            0 <= i < n && (#[trigger] barrels[i]).live(tick) && barrels[i].point == cell,
    decreases n,
{
    if n > 0 {
        lemma_barrel_cells(barrels, tick, (n - 1) as nat, cell);
        if barrel_cells(barrels, tick, (n - 1) as nat).contains(cell) {
            let i = choose|i: int|
                0 <= i < n - 1 && (#[trigger] barrels[i]).live(tick) && barrels[i].point == cell;
            assert(0 <= i < n && barrels[i].live(tick) && barrels[i].point == cell);
        }
    }
}

/// The fire map depends on the live cannonballs alone: two collections that
/// hold the same cannonball wherever either holds a live one have the same
/// map.
pub proof fn lemma_fire_map_ignores_stale(a: Seq<Cannoball>, b: Seq<Cannoball>, tick: int, n: nat)
    requires
        n <= a.len(),
        n <= b.len(),
        forall|i: int| 0 <= i < n && (a[i].live(tick) || b[i].live(tick)) ==> a[i] == b[i],
    ensures
        fire_map(a, tick, n) == fire_map(b, tick, n),
    decreases n,
{
    if n > 0 {
        lemma_fire_map_ignores_stale(a, b, tick, (n - 1) as nat);
    }
}

/// The mine cells depend on where the live mines lie alone: two collections
/// whose mines agree in cell wherever either is alive, and are alive
/// together, have the same cells.
pub proof fn lemma_mine_cells_ignore_stale(a: Seq<Mine>, b: Seq<Mine>, tick: int, n: nat)
    requires
        n <= a.len(),
        n <= b.len(),
        forall|i: int| 0 <= i < n ==> a[i].live(tick) == b[i].live(tick),
        forall|i: int| 0 <= i < n && a[i].live(tick) ==> a[i].point == b[i].point,
    ensures
        mine_cells(a, tick, n) == mine_cells(b, tick, n),
    decreases n,
{
    if n > 0 {
        lemma_mine_cells_ignore_stale(a, b, tick, (n - 1) as nat);
    }
}

/// The barrel cells depend on the live barrels alone.
pub proof fn lemma_barrel_cells_ignore_stale(a: Seq<Barrel>, b: Seq<Barrel>, tick: int, n: nat)
    requires
        n <= a.len(),
        n <= b.len(),
        forall|i: int| 0 <= i < n ==> a[i].live(tick) == b[i].live(tick),
        forall|i: int| 0 <= i < n && a[i].live(tick) ==> a[i].point == b[i].point,
    ensures
        barrel_cells(a, tick, n) == barrel_cells(b, tick, n),
    decreases n,
{
    if n > 0 {
        lemma_barrel_cells_ignore_stale(a, b, tick, (n - 1) as nat);
    }
}

/// Building the field is idempotent: a world whose field was built stays as
/// it is when the field is built again.
pub proof fn lemma_rebuild_idempotent(world: GameView)
    ensures
        world.rebuilt().rebuilt() == world.rebuilt(),
{
    let once = world.rebuilt();
    let twice = once.rebuilt();
    let tick = world.current_tick;
    let fire = fire_map(world.cannonballs, tick, world.cannonballs.len());
    lemma_mine_cells_ignore_stale(once.mines, world.mines, tick, world.mines.len());
    assert(twice.mines =~= once.mines);
    assert(twice.under_fire == once.under_fire);
    assert(twice.mine_field == once.mine_field);
    assert(twice.barrels_field == once.barrels_field);
}

/// The built field holds nothing of an entity that was not reported in the
/// current tick: a cell is under fire, mined or stocked only where a live
/// cannonball is aimed at it or a live mine or barrel lies in it.
pub proof fn lemma_field_is_live(world: GameView, cell: Point)
    ensures
        world.rebuilt().under_fire.contains_key(cell) <==> exists|i: int|
            aims_at(world.cannonballs, world.current_tick, i, cell),
        world.rebuilt().mine_field.contains(cell) <==> exists|i: int|
            0 <= i < world.mines.len() && (#[trigger] world.mines[i]).live(world.current_tick)
                && world.mines[i].point == cell,
        world.rebuilt().barrels_field.contains(cell) <==> exists|i: int|
            0 <= i < world.barrels.len() && (#[trigger] world.barrels[i]).live(world.current_tick)
                && world.barrels[i].point == cell,
{
    let tick = world.current_tick;
    lemma_fire_map(world.cannonballs, tick, world.cannonballs.len(), cell);
    lemma_mine_cells(world.mines, tick, world.mines.len(), cell);
    lemma_barrel_cells(world.barrels, tick, world.barrels.len(), cell);
    if world.rebuilt().under_fire.contains_key(cell) {
        let i = choose|i: int| i < world.cannonballs.len() && aims_at(world.cannonballs, tick, i, cell);
        assert(aims_at(world.cannonballs, tick, i, cell));
    }
    if exists|i: int| aims_at(world.cannonballs, tick, i, cell) {
        let i = choose|i: int| aims_at(world.cannonballs, tick, i, cell);
        assert(i < world.cannonballs.len() && aims_at(world.cannonballs, tick, i, cell));
    }
}

/// After the field was built, a live mine is marked as under fire exactly
/// where its cell is under fire; a mine that is not alive is as it was.
pub proof fn lemma_marked_mines(world: GameView, i: int)
    requires
        0 <= i < world.mines.len(),
    ensures
        world.rebuilt().mines.len() == world.mines.len(),
        world.mines[i].live(world.current_tick) ==> world.rebuilt().mines[i].under_fire
            == world.rebuilt().under_fire.contains_key(world.mines[i].point),
        world.mines[i].live(world.current_tick) ==> world.rebuilt().mines[i] == (Mine {
            under_fire: world.rebuilt().mines[i].under_fire,
            ..world.mines[i]
        }),
        !world.mines[i].live(world.current_tick) ==> world.rebuilt().mines[i] == world.mines[i],
{
    let fire = fire_map(world.cannonballs, world.current_tick, world.cannonballs.len());
    assert(world.rebuilt().mines == marked_mines(world.mines, world.current_tick, fire));
}

} // verus!
