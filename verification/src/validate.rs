//! Checking the invariant of a world at run time.
//!
//! The fields of a [`Game`] are open to everybody. Code that cannot be sure
//! of a value, because it did not get it from this library alone, can ask
//! here whether it is one that the library works with.

use vstd::prelude::*;
use crate::entity::{Barrel, Cannoball, Mine, Ship, MAX_SPEED, WAYPOINTS};
use crate::game::{Game, barrels_wf, cannonballs_wf, mines_wf, ships_wf};
use crate::geometry::{Point, MAX_X, MAX_Y};

verus! {

/// Whether no identity occurs twice.
pub open spec fn distinct(ids: Seq<i32>) -> bool {
    forall|i: int, j: int| 0 <= i < j < ids.len() ==> ids[i] != ids[j]
}

/// Whether no identity occurs twice.
pub fn all_distinct(ids: &Vec<i32>) -> (ok: bool)
    ensures
        ok == distinct(ids@),
{
    let mut j: usize = 0;
    while j < ids.len()
        invariant
            j <= ids.len(),
            forall|a: int, b: int| 0 <= a < b < j ==> ids[a] != ids[b],
        decreases ids.len() - j,
    {
        let mut i: usize = 0;
        while i < j
            invariant
                i <= j,
                j < ids.len(),
                forall|a: int| 0 <= a < i ==> ids[a] != ids[j as int],
            decreases j - i,
        {
            if ids[i] == ids[j] {
                return false;
            }
            i = i + 1;
        }
        j = j + 1;
    }
    true
}

/// Whether the cell lies on the board.
pub fn is_on_board(p: &Point) -> (ok: bool)
    ensures
        ok == p.on_board(),
{
    0 <= p.x && p.x <= MAX_X && 0 <= p.y && p.y <= MAX_Y
}

/// Whether the ships are such as a world may hold at `tick`.
pub fn ships_valid(ships: &Vec<Ship>, tick: i32) -> (ok: bool)
    ensures
        ok == ships_wf(ships@, tick as int),
{
    let mut ids: Vec<i32> = Vec::new();
    let mut i: usize = 0;
    while i < ships.len()
        invariant
            i <= ships.len(),
            ids.len() == i,
            forall|k: int| 0 <= k < i ==> ids[k] == ships[k].entity_id,
            forall|k: int| 0 <= k < i ==> (#[trigger] ships[k]).wf() && ships[k].tick_accessed <= tick,
        decreases ships.len() - i,
    {
        let ship: &Ship = &ships[i];
        if !(ship.entity_id >= 0 && is_on_board(&ship.point) && 0 <= ship.rotation && ship.rotation < 6 && 0
            <= ship.speed && ship.speed <= MAX_SPEED && ship.wp_ind < WAYPOINTS && ship.tick_accessed <= tick) {
            return false;
        }
        ids.push(ship.entity_id);
        i = i + 1;
    }
    let ok: bool = all_distinct(&ids);
    proof {
        if ok {
            assert forall|a: int, b: int| 0 <= a < b < ships.len() implies (#[trigger] ships[a]).entity_id
                != (#[trigger] ships[b]).entity_id by {
                assert(ids[a] != ids[b]);
            }
        } else {
            let (a, b) = choose|a: int, b: int| 0 <= a < b < ids.len() && ids[a] == ids[b];
            assert(ships[a].entity_id == ships[b].entity_id);
        }
    }
    ok
}

/// Whether the barrels are such as a world may hold at `tick`.
pub fn barrels_valid(barrels: &Vec<Barrel>, tick: i32) -> (ok: bool)
    ensures
        ok == barrels_wf(barrels@, tick as int),
{
    let mut ids: Vec<i32> = Vec::new();
    let mut i: usize = 0;
    while i < barrels.len()
        invariant
            i <= barrels.len(),
            ids.len() == i,
            forall|k: int| 0 <= k < i ==> ids[k] == barrels[k].entity_id,
            forall|k: int| 0 <= k < i ==> (#[trigger] barrels[k]).wf() && barrels[k].tick_accessed <= tick,
        decreases barrels.len() - i,
    {
        let barrel: &Barrel = &barrels[i];
        if !(barrel.entity_id >= 0 && is_on_board(&barrel.point) && barrel.tick_accessed <= tick) {
            return false;
        }
        ids.push(barrel.entity_id);
        i = i + 1;
    }
    let ok: bool = all_distinct(&ids);
    proof {
        if ok {
            assert forall|a: int, b: int| 0 <= a < b < barrels.len() implies (#[trigger] barrels[a]).entity_id
                != (#[trigger] barrels[b]).entity_id by {
                assert(ids[a] != ids[b]);
            }
        } else {
            let (a, b) = choose|a: int, b: int| 0 <= a < b < ids.len() && ids[a] == ids[b];
            assert(barrels[a].entity_id == barrels[b].entity_id);
        }
    }
    ok
}

/// Whether the mines are such as a world may hold at `tick`.
pub fn mines_valid(mines: &Vec<Mine>, tick: i32) -> (ok: bool)
    ensures
        ok == mines_wf(mines@, tick as int),
{
    let mut ids: Vec<i32> = Vec::new();
    let mut i: usize = 0;
    while i < mines.len()
        invariant
            i <= mines.len(),
            ids.len() == i,
            forall|k: int| 0 <= k < i ==> ids[k] == mines[k].entity_id,
            forall|k: int| 0 <= k < i ==> (#[trigger] mines[k]).wf() && mines[k].tick_accessed <= tick,
        decreases mines.len() - i,
    {
        let mine: &Mine = &mines[i];
        if !(mine.entity_id >= 0 && is_on_board(&mine.point) && mine.tick_accessed <= tick) {
            return false;
        }
        ids.push(mine.entity_id);
        i = i + 1;
    }
    let ok: bool = all_distinct(&ids);
    proof {
        if ok {
            assert forall|a: int, b: int| 0 <= a < b < mines.len() implies (#[trigger] mines[a]).entity_id
                != (#[trigger] mines[b]).entity_id by {
                assert(ids[a] != ids[b]);
            }
        } else {
            let (a, b) = choose|a: int, b: int| 0 <= a < b < ids.len() && ids[a] == ids[b];
            assert(mines[a].entity_id == mines[b].entity_id);
        }
    }
    ok
}

/// Whether the cannonballs are such as a world may hold at `tick`.
pub fn cannonballs_valid(balls: &Vec<Cannoball>, tick: i32) -> (ok: bool)
    ensures
        ok == cannonballs_wf(balls@, tick as int),
{
    let mut ids: Vec<i32> = Vec::new();
    let mut i: usize = 0;
    while i < balls.len()
        invariant
            i <= balls.len(),
            ids.len() == i,
            forall|k: int| 0 <= k < i ==> ids[k] == balls[k].entity_id,
            forall|k: int| 0 <= k < i ==> (#[trigger] balls[k]).wf() && balls[k].tick_accessed <= tick,
        decreases balls.len() - i,
    {
        let ball: &Cannoball = &balls[i];
        if !(ball.entity_id >= 0 && is_on_board(&ball.target) && ball.tick_accessed >= 0 && ball.tick_accessed
            <= tick && ball.impact_time >= -ball.tick_accessed) {
            return false;
        }
        ids.push(ball.entity_id);
        i = i + 1;
    }
    let ok: bool = all_distinct(&ids);
    proof {
        if ok {
            assert forall|a: int, b: int| 0 <= a < b < balls.len() implies (#[trigger] balls[a]).entity_id
                != (#[trigger] balls[b]).entity_id by {
                assert(ids[a] != ids[b]);
            }
        } else {
            let (a, b) = choose|a: int, b: int| 0 <= a < b < ids.len() && ids[a] == ids[b];
            assert(balls[a].entity_id == balls[b].entity_id);
        }
    }
    ok
}

impl Game {
    /// Whether the world satisfies its invariant.
    pub fn is_valid(&self) -> (ok: bool)
        ensures
            ok == self.wf(),
    {
        self.current_tick >= 0 && ships_valid(&self.my_ships, self.current_tick) && ships_valid(
            &self.enemy_ships,
            self.current_tick,
        ) && barrels_valid(&self.barrels, self.current_tick) && mines_valid(&self.mines, self.current_tick)
            && cannonballs_valid(&self.cannonballs, self.current_tick)
    }
}

} // verus!
