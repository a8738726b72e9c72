//! Target selection: the nearest barrel, mine or enemy, the enemy that is
//! about to run into a ship, and the patrol waypoints.
//!
//! Every scan visits the entities in the order of their first sighting and
//! passes over those that were not reported in the current tick. Of several
//! entities at the same least distance the one that was sighted first is
//! chosen.

use vstd::prelude::*;
use crate::entity::{Barrel, Mine, Ship, WAYPOINTS};
use crate::game::{Game, GameView};
use crate::geometry::{Point, opposite};
use crate::planner::hull_covers;

verus! {

/// The identity that stands for no entity.
pub const NOBODY: i32 = -1;

/// Distance within which a ship has reached its waypoint.
pub const WAYPOINT_REACHED: i32 = 2;

/// An entity as a scan for the nearest one sees it.
#[derive(PartialEq, Eq, Structural, Clone, Copy, Debug)]
pub struct Candidate {
    pub point: Point,
    /// Whether the entity may be chosen.
    pub eligible: bool,
}

/// The index of the nearest eligible candidate among the first `n`, if there
/// is one; of several at the same distance the first.
pub open spec fn nearest(candidates: Seq<Candidate>, from: Point, n: nat) -> Option<int>
    decreases n,
{
    if n == 0 {
        None
    } else {
        let best = nearest(candidates, from, (n - 1) as nat);
        let c = candidates[n - 1];
        if c.eligible && (best is None || from.spec_distance(c.point) < from.spec_distance(
            candidates[best->0].point,
        )) {
            Some(n - 1)
        } else {
            best
        }
    }
}

/// The barrels as candidates: a barrel may be chosen if it is alive.
pub open spec fn barrel_candidates(barrels: Seq<Barrel>, tick: int) -> Seq<Candidate> {
    Seq::new(barrels.len(), |i: int| Candidate { point: barrels[i].point, eligible: barrels[i].live(tick) })
}

/// The mines as candidates: a mine may be chosen if it is alive and no
/// cannonball is on its way to it.
pub open spec fn mine_candidates(mines: Seq<Mine>, tick: int) -> Seq<Candidate> {
    Seq::new(
        mines.len(),
        |i: int| Candidate { point: mines[i].point, eligible: mines[i].live(tick) && !mines[i].under_fire },
    )
}

/// The ships as candidates: a ship may be chosen if it is alive.
pub open spec fn ship_candidates(ships: Seq<Ship>, tick: int) -> Seq<Candidate> {
    Seq::new(ships.len(), |i: int| Candidate { point: ships[i].point, eligible: ships[i].live(tick) })
}

/// Whether a ship that sails from `point` in the facing `rotation` brings
/// the cell ahead of its bow onto the hull of `ship` within `steps` steps.
pub open spec fn runs_into(point: Point, rotation: int, steps: int, ship: Ship) -> bool
    decreases steps,
{
    if steps <= 0 {
        false
    } else {
        let next = point.spec_neighbour(rotation);
        hull_covers(ship, next.spec_neighbour(rotation)) || runs_into(next, rotation, steps - 1, ship)
    }
}

/// The patrol waypoint with the given index.
pub open spec fn waypoint(index: int) -> Point {
    if index == 0 {
        Point { x: 2, y: 2 }
    } else if index == 1 {
        Point { x: 20, y: 2 }
    } else if index == 2 {
        Point { x: 2, y: 18 }
    } else {
        Point { x: 20, y: 18 }
    }
}

/// The index of the waypoint that `ship` heads for: the one after its own
/// once it is no farther from that than [`WAYPOINT_REACHED`], else its own.
pub open spec fn waypoint_index(ship: Ship) -> int {
    if ship.point.spec_distance(waypoint(ship.wp_ind as int)) <= WAYPOINT_REACHED {
        (ship.wp_ind + 1) % (WAYPOINTS as int)
    } else {
        ship.wp_ind as int
    }
}

impl GameView {
    /// Whether the enemy at index `i` is alive and about to run into `ship`
    /// at its present speed.
    pub open spec fn imminent(self, i: int, ship: Ship) -> bool {
        &&& 0 <= i < self.enemy_ships.len()
        &&& self.enemy_ships[i].live(self.current_tick)
        &&& runs_into(
            self.enemy_ships[i].point,
            self.enemy_ships[i].rotation as int,
            self.enemy_ships[i].speed as int,
            ship,
        )
    }

    /// The index of the first of the first `n` enemies that is alive and
    /// about to run into `ship`, if there is one.
    pub open spec fn first_imminent(self, ship: Ship, n: nat) -> Option<int>
        decreases n,
    {
        if n == 0 {
            None
        } else {
            let before = self.first_imminent(ship, (n - 1) as nat);
            if before is Some {
                before
            } else if self.imminent(n - 1, ship) {
                Some(n - 1)
            } else {
                None
            }
        }
    }

    /// The index of the enemy to fire at because it is about to run into
    /// `ship`.
    pub open spec fn imminent_target(self, ship: Ship) -> Option<int> {
        self.first_imminent(ship, self.enemy_ships.len())
    }

    /// The index of the live barrel nearest to `from`.
    pub open spec fn nearest_barrel(self, from: Point) -> Option<int> {
        nearest(barrel_candidates(self.barrels, self.current_tick), from, self.barrels.len())
    }

    /// The index of the nearest live mine that is not under fire.
    pub open spec fn nearest_mine(self, from: Point) -> Option<int> {
        nearest(mine_candidates(self.mines, self.current_tick), from, self.mines.len())
    }

    /// The index of the live enemy nearest to `from`.
    pub open spec fn nearest_enemy(self, from: Point) -> Option<int> {
        nearest(ship_candidates(self.enemy_ships, self.current_tick), from, self.enemy_ships.len())
    }
}

/// The index of the nearest eligible candidate, if there is one.
pub fn nearest_index(candidates: &Vec<Candidate>, from: &Point) -> (best: Option<usize>)
    requires
        from.on_board(),
        forall|i: int| 0 <= i < candidates.len() ==> (#[trigger] candidates[i]).point.on_board(),
    ensures
        best is Some <==> nearest(candidates@, *from, candidates.len() as nat) is Some,
        best is Some ==> best->0 == nearest(candidates@, *from, candidates.len() as nat)->0,
        best is Some ==> best->0 < candidates.len(),
{
    let mut best: Option<usize> = None;
    let mut min_distance: i32 = 0;
    let mut i: usize = 0;
    while i < candidates.len()
        invariant
            i <= candidates.len(),
            from.on_board(),
            forall|k: int| 0 <= k < candidates.len() ==> (#[trigger] candidates[k]).point.on_board(),
            best is Some <==> nearest(candidates@, *from, i as nat) is Some,
            best is Some ==> best->0 == nearest(candidates@, *from, i as nat)->0,
            best is Some ==> best->0 < i && min_distance == from.spec_distance(candidates[best->0 as int].point),
        decreases candidates.len() - i,
    {
        let c: Candidate = candidates[i];
        if c.eligible {
            let d: i32 = from.distance(&c.point);
            if best.is_none() || d < min_distance {
                min_distance = d;
                best = Some(i);
            }
        }
        i = i + 1;
    }
    best
}

impl Game {
    /// The index of the live barrel nearest to `from`.
    pub fn barrel_index(&self, from: &Point) -> (best: Option<usize>)
        requires
            self.wf(),
            from.on_board(),
        ensures
            best is Some <==> self@.nearest_barrel(*from) is Some,
            best is Some ==> best->0 == self@.nearest_barrel(*from)->0 && best->0 < self.barrels.len(),
    {
        let mut candidates: Vec<Candidate> = Vec::new();
        let mut i: usize = 0;
        while i < self.barrels.len()
            invariant
                self.wf(),
                i <= self.barrels.len(),
                candidates.len() == i,
                forall|k: int|
                    0 <= k < i ==> (#[trigger] candidates[k]) == barrel_candidates(
                        self@.barrels,
                        self@.current_tick,
                    )[k],
            decreases self.barrels.len() - i,
        {
            let barrel: &Barrel = &self.barrels[i];
            candidates.push(Candidate { point: barrel.point, eligible: barrel.is_alive(self.current_tick) });
            i = i + 1;
        }
        assert(candidates@ =~= barrel_candidates(self@.barrels, self@.current_tick));
        nearest_index(&candidates, from)
    }

    /// The index of the nearest live mine that is not under fire.
    pub fn mine_index(&self, from: &Point) -> (best: Option<usize>)
        requires
            self.wf(),
            from.on_board(),
        ensures
            best is Some <==> self@.nearest_mine(*from) is Some,
            best is Some ==> best->0 == self@.nearest_mine(*from)->0 && best->0 < self.mines.len(),
    {
        let mut candidates: Vec<Candidate> = Vec::new();
        let mut i: usize = 0;
        while i < self.mines.len()
            invariant
                self.wf(),
                i <= self.mines.len(),
                candidates.len() == i,
                forall|k: int|
                    0 <= k < i ==> (#[trigger] candidates[k]) == mine_candidates(self@.mines, self@.current_tick)[k],
            decreases self.mines.len() - i,
        {
            let mine: &Mine = &self.mines[i];
            candidates.push(
                Candidate { point: mine.point, eligible: mine.is_alive(self.current_tick) && !mine.under_fire },
            );
            i = i + 1;
        }
        assert(candidates@ =~= mine_candidates(self@.mines, self@.current_tick));
        nearest_index(&candidates, from)
    }

    /// The index of the live enemy nearest to `from`.
    pub fn enemy_index(&self, from: &Point) -> (best: Option<usize>)
        requires
            self.wf(),
            from.on_board(),
        ensures
            best is Some <==> self@.nearest_enemy(*from) is Some,
            best is Some ==> best->0 == self@.nearest_enemy(*from)->0 && best->0 < self.enemy_ships.len(),
    {
        let mut candidates: Vec<Candidate> = Vec::new();
        let mut i: usize = 0;
        while i < self.enemy_ships.len()
            invariant
                self.wf(),
                i <= self.enemy_ships.len(),
                candidates.len() == i,
                forall|k: int|
                    0 <= k < i ==> (#[trigger] candidates[k]) == ship_candidates(
                        self@.enemy_ships,
                        self@.current_tick,
                    )[k],
            decreases self.enemy_ships.len() - i,
        {
            let ship: &Ship = &self.enemy_ships[i];
            candidates.push(Candidate { point: ship.point, eligible: ship.is_alive(self.current_tick) });
            i = i + 1;
        }
        assert(candidates@ =~= ship_candidates(self@.enemy_ships, self@.current_tick));
        nearest_index(&candidates, from)
    }

    /// The index of the first live enemy that is about to run into `ship`.
    pub fn target_index(&self, ship: &Ship) -> (found: Option<usize>)
        requires
            self.wf(),
            ship.wf(),
        ensures
            found is Some <==> self@.imminent_target(*ship) is Some,
            found is Some ==> found->0 == self@.imminent_target(*ship)->0 && found->0 < self.enemy_ships.len(),
    {
        let mut i: usize = 0;
        while i < self.enemy_ships.len()
            invariant
                self.wf(),
                ship.wf(),
                i <= self.enemy_ships.len(),
                self@.first_imminent(*ship, i as nat) is None,
            decreases self.enemy_ships.len() - i,
        {
            let enemy: &Ship = &self.enemy_ships[i];
            if enemy.is_alive(self.current_tick) && threatens(enemy, ship) {
                proof {
                    lemma_first_imminent_stays(self@, *ship, (i + 1) as nat, self.enemy_ships.len() as nat);
                }
                return Some(i);
            }
            i = i + 1;
        }
        None
    }

    /// The identity of the nearest live mine that is not under fire, or
    /// [`NOBODY`].
    pub fn get_mine(&self, ship: &Point) -> (mine_id: i32)
        requires
            self.wf(),
            ship.on_board(),
        ensures
            mine_id == match self@.nearest_mine(*ship) {
                Some(k) => self@.mines[k].entity_id,
                None => NOBODY,
            },
    {
        match self.mine_index(ship) {
            Some(k) => self.mines[k].entity_id,
            None => NOBODY,
        }
    }

    /// The identity of the first live enemy that is about to run into
    /// `ship`, or [`NOBODY`].
    pub fn get_target(&self, ship: &Ship) -> (enemy_id: i32)
        requires
            self.wf(),
            ship.wf(),
        ensures
            enemy_id == match self@.imminent_target(*ship) {
                Some(k) => self@.enemy_ships[k].entity_id,
                None => NOBODY,
            },
    {
        match self.target_index(ship) {
            Some(k) => self.enemy_ships[k].entity_id,
            None => NOBODY,
        }
    }

    /// The identity of the live enemy nearest to `ship`, or [`NOBODY`].
    pub fn get_closest_target(&self, ship: &Point) -> (enemy_id: i32)
        requires
            self.wf(),
            ship.on_board(),
        ensures
            enemy_id == match self@.nearest_enemy(*ship) {
                Some(k) => self@.enemy_ships[k].entity_id,
                None => NOBODY,
            },
    {
        match self.enemy_index(ship) {
            Some(k) => self.enemy_ships[k].entity_id,
            None => NOBODY,
        }
    }

    /// The identity of the live barrel nearest to `ship`, or [`NOBODY`].
    pub fn get_barrel(&self, ship: &Point) -> (barrel_id: i32)
        requires
            self.wf(),
            ship.on_board(),
        ensures
            barrel_id == match self@.nearest_barrel(*ship) {
                Some(k) => self@.barrels[k].entity_id,
                None => NOBODY,
            },
    {
        match self.barrel_index(ship) {
            Some(k) => self.barrels[k].entity_id,
            None => NOBODY,
        }
    }

    /// The waypoint that `ship` heads for, with its index.
    pub fn get_waypoint(ship: &Ship) -> (result: (Point, usize))
        requires
            ship.wf(),
        ensures
            result.1 == waypoint_index(*ship),
            result.0 == waypoint(waypoint_index(*ship)),
            result.1 < WAYPOINTS,
            result.0.on_board(),
    {
        let own: Point = waypoint_at(ship.wp_ind);
        let d: i32 = ship.point.distance(&own);
        let mut wp_ind: usize = ship.wp_ind;
        if d <= WAYPOINT_REACHED {
            wp_ind = (ship.wp_ind + 1) % WAYPOINTS;
        }
        (waypoint_at(wp_ind), wp_ind)
    }
}

/// The patrol waypoint with the given index.
fn waypoint_at(index: usize) -> (p: Point)
    requires
        index < WAYPOINTS,
    ensures
        p == waypoint(index as int),
        p.on_board(),
{
    if index == 0 {
        Point::new(2, 2)
    } else if index == 1 {
        Point::new(20, 2)
    } else if index == 2 {
        Point::new(2, 18)
    } else {
        Point::new(20, 18)
    }
}

/// Whether `enemy` is about to run into `ship` at its present speed.
fn threatens(enemy: &Ship, ship: &Ship) -> (hit: bool)
    requires
        enemy.wf(),
        ship.wf(),
    ensures
        hit == runs_into(enemy.point, enemy.rotation as int, enemy.speed as int, *ship),
{
    let nose: Point = ship.point.get_neighbour(ship.rotation);
    let stern: Point = ship.point.get_neighbour((ship.rotation + 3) % 6);
    let mut t_pos: Point = enemy.point;
    let mut step: i32 = 0;
    while step < enemy.speed
        invariant
            enemy.wf(),
            ship.wf(),
            t_pos.on_board(),
            0 <= step,
            nose == ship.point.spec_neighbour(ship.rotation as int),
            stern == ship.point.spec_neighbour(opposite(ship.rotation as int)),
            runs_into(enemy.point, enemy.rotation as int, enemy.speed as int, *ship) == runs_into(
                t_pos,
                enemy.rotation as int,
                enemy.speed - step,
                *ship,
            ),
        decreases enemy.speed - step,
    {
        t_pos = t_pos.get_neighbour(enemy.rotation);
        let sp_nose: Point = t_pos.get_neighbour(enemy.rotation);
        if sp_nose == ship.point || sp_nose == nose || sp_nose == stern {
            return true;
        }
        step = step + 1;
    }
    false
}

/// Once an enemy among the first `n` is found to be about to run into
/// `ship`, later enemies do not change the answer.
pub proof fn lemma_first_imminent_stays(g: GameView, ship: Ship, n: nat, m: nat)
    requires
        n <= m,
        g.first_imminent(ship, n) is Some,
    ensures
        g.first_imminent(ship, m) == g.first_imminent(ship, n),
    decreases m,
{
    if n < m {
        lemma_first_imminent_stays(g, ship, n, (m - 1) as nat);
    }
}

} // verus!
