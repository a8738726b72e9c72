//! Laws of target selection.

use vstd::prelude::*;
use crate::entity::Ship;
use crate::game::GameView;
use crate::geometry::Point;
use crate::targeting::{Candidate, barrel_candidates, mine_candidates, nearest, ship_candidates};

verus! {

/// What [`nearest`] finds: an eligible candidate than which no eligible one
/// is nearer and before which every eligible one is farther; or nothing,
/// where no candidate is eligible.
pub proof fn lemma_nearest(candidates: Seq<Candidate>, from: Point, n: nat)
    requires
        n <= candidates.len(),
    ensures
        match nearest(candidates, from, n) {
            Some(k) => {
                &&& 0 <= k < n
                &&& candidates[k].eligible
                &&& forall|j: int|
                    0 <= j < n && (#[trigger] candidates[j]).eligible ==> from.spec_distance(candidates[k].point)
                        <= from.spec_distance(candidates[j].point)
                &&& forall|j: int|
                    0 <= j < k && (#[trigger] candidates[j]).eligible ==> from.spec_distance(candidates[k].point)
                        < from.spec_distance(candidates[j].point)
            },
            None => forall|j: int| 0 <= j < n ==> !(#[trigger] candidates[j]).eligible,
        },
    decreases n,
{
    if n > 0 {
        lemma_nearest(candidates, from, (n - 1) as nat);
    }
}

/// The scan depends on the eligible candidates alone: two collections that
/// hold the same candidate wherever either holds an eligible one give the
/// same answer.
pub proof fn lemma_nearest_ignores_ineligible(a: Seq<Candidate>, b: Seq<Candidate>, from: Point, n: nat)
    requires
        n <= a.len(),
        n <= b.len(),
        forall|i: int| 0 <= i < n && (a[i].eligible || b[i].eligible) ==> a[i] == b[i],
    ensures
        nearest(a, from, n) == nearest(b, from, n),
    decreases n,
{
    if n > 0 {
        lemma_nearest_ignores_ineligible(a, b, from, (n - 1) as nat);
        lemma_nearest(a, from, (n - 1) as nat);
        lemma_nearest(b, from, (n - 1) as nat);
    }
}

/// What the search for an imminent target finds: the first enemy that is
/// alive and about to run into `ship`, or nothing where there is none.
pub proof fn lemma_first_imminent(world: GameView, ship: Ship, n: nat)
    requires
        n <= world.enemy_ships.len(),
    ensures
        match world.first_imminent(ship, n) {
            Some(k) => 0 <= k < n && world.imminent(k, ship) && forall|j: int| 0 <= j < k ==> !world.imminent(j, ship),
            None => forall|j: int| 0 <= j < n ==> !world.imminent(j, ship),
        },
    decreases n,
{
    if n > 0 {
        lemma_first_imminent(world, ship, (n - 1) as nat);
    }
}

/// Every entity that a search names was reported in the current tick.
pub proof fn lemma_targets_are_live(world: GameView, ship: Ship, from: Point)
    ensures
        world.imminent_target(ship) matches Some(k) ==> 0 <= k < world.enemy_ships.len()
            && world.enemy_ships[k].live(world.current_tick),
        world.nearest_enemy(from) matches Some(k) ==> 0 <= k < world.enemy_ships.len()
            && world.enemy_ships[k].live(world.current_tick),
        world.nearest_barrel(from) matches Some(k) ==> 0 <= k < world.barrels.len() && world.barrels[k].live(
            world.current_tick,
        ),
        world.nearest_mine(from) matches Some(k) ==> 0 <= k < world.mines.len() && world.mines[k].live(
            world.current_tick,
        ) && !world.mines[k].under_fire,
{
    lemma_first_imminent(world, ship, world.enemy_ships.len());
    lemma_nearest(ship_candidates(world.enemy_ships, world.current_tick), from, world.enemy_ships.len());
    lemma_nearest(barrel_candidates(world.barrels, world.current_tick), from, world.barrels.len());
    lemma_nearest(mine_candidates(world.mines, world.current_tick), from, world.mines.len());
}

/// Whether two worlds of the same tick hold the same entity wherever either
/// holds one that was reported in that tick. What they hold of entities that
/// were not reported may differ in any way.
pub open spec fn same_live_entities(a: GameView, b: GameView) -> bool {
    let tick = a.current_tick;
    &&& b.current_tick == tick
    &&& a.my_ships.len() == b.my_ships.len()
    &&& a.enemy_ships.len() == b.enemy_ships.len()
    &&& a.barrels.len() == b.barrels.len()
    &&& a.mines.len() == b.mines.len()
    &&& a.cannonballs.len() == b.cannonballs.len()
    &&& forall|i: int|
        0 <= i < a.my_ships.len() && (a.my_ships[i].live(tick) || b.my_ships[i].live(tick)) ==> a.my_ships[i]
            == b.my_ships[i]
    &&& forall|i: int|
        0 <= i < a.enemy_ships.len() && (a.enemy_ships[i].live(tick) || b.enemy_ships[i].live(tick))
            ==> a.enemy_ships[i] == b.enemy_ships[i]
    &&& forall|i: int|
        0 <= i < a.barrels.len() && (a.barrels[i].live(tick) || b.barrels[i].live(tick)) ==> a.barrels[i]
            == b.barrels[i]
    &&& forall|i: int|
        0 <= i < a.mines.len() && (a.mines[i].live(tick) || b.mines[i].live(tick)) ==> a.mines[i] == b.mines[i]
    &&& forall|i: int|
        0 <= i < a.cannonballs.len() && (a.cannonballs[i].live(tick) || b.cannonballs[i].live(tick))
            ==> a.cannonballs[i] == b.cannonballs[i]
}

/// The search for an imminent target passes over enemies that were not
/// reported.
pub proof fn lemma_first_imminent_ignores_stale(a: GameView, b: GameView, ship: Ship, n: nat)
    requires
        same_live_entities(a, b),
        n <= a.enemy_ships.len(),
    ensures
        a.first_imminent(ship, n) == b.first_imminent(ship, n),
    decreases n,
{
    if n > 0 {
        lemma_first_imminent_ignores_stale(a, b, ship, (n - 1) as nat);
    }
}

/// No search sees an entity that was not reported in the current tick: two
/// worlds that agree on the reported entities get the same answers, whatever
/// they hold of the others.
pub proof fn lemma_searches_ignore_stale(a: GameView, b: GameView, ship: Ship, from: Point)
    requires
        same_live_entities(a, b),
    ensures
        a.imminent_target(ship) == b.imminent_target(ship),
        a.nearest_enemy(from) == b.nearest_enemy(from),
        a.nearest_barrel(from) == b.nearest_barrel(from),
        a.nearest_mine(from) == b.nearest_mine(from),
{
    let tick = a.current_tick;
    lemma_first_imminent_ignores_stale(a, b, ship, a.enemy_ships.len());
    lemma_nearest_ignores_ineligible(
        ship_candidates(a.enemy_ships, tick),
        ship_candidates(b.enemy_ships, tick),
        from,
        a.enemy_ships.len(),
    );
    lemma_nearest_ignores_ineligible(
        barrel_candidates(a.barrels, tick),
        barrel_candidates(b.barrels, tick),
        from,
        a.barrels.len(),
    );
    lemma_nearest_ignores_ineligible(
        mine_candidates(a.mines, tick),
        mine_candidates(b.mines, tick),
        from,
        a.mines.len(),
    );
}

/// Where no enemy was reported in the current tick, no search names an
/// enemy.
pub proof fn lemma_no_enemy_no_target(world: GameView, ship: Ship, from: Point)
    requires
        forall|i: int| 0 <= i < world.enemy_ships.len() ==> !(#[trigger] world.enemy_ships[i]).live(world.current_tick),
    ensures
        world.imminent_target(ship) is None,
        world.nearest_enemy(from) is None,
{
    lemma_targets_are_live(world, ship, from);
}

} // verus!
