//! One turn: what every live own ship does, and the bookkeeping that
//! follows from it.
//!
//! A ship that may fire and is about to be run into fires at the enemy that
//! comes. Otherwise it plans a move, towards the nearest barrel or, where
//! there is none, towards its patrol waypoint; and where it may fire and the
//! nearest enemy will be within range, it fires ahead of that enemy instead
//! of moving. A ship fires or moves, never both.

use vstd::prelude::*;
use crate::action::Action;
use crate::entity::{Ship, WAYPOINTS};
use crate::game::{Game, GameView};
use crate::geometry::Point;
use crate::snapshot::{EntityRecord, SnapshotError};
use crate::targeting::{waypoint, waypoint_index};

verus! {

/// Ticks that a ship waits after a shot before it may fire again.
pub const COOLDOWN: i32 = 2;

/// Distance below which a shot ahead of the nearest enemy is taken.
pub const FIRE_RANGE: i32 = 4;

/// The lead of a shot grows by one cell for every so many cells of distance.
pub const LEAD_DIVISOR: i32 = 3;

/// How far ahead of `enemy` a shot from `from` is aimed: nowhere if the
/// enemy lies still, else one cell and one more for every three cells of
/// distance.
pub open spec fn lead(from: Point, enemy: Ship) -> int {
    if enemy.speed == 0 {
        0
    } else {
        1 + from.spec_distance(enemy.point) / (LEAD_DIVISOR as int)
    }
}

/// The cell at which a shot from `from` at `enemy` is aimed.
pub open spec fn intercept(from: Point, enemy: Ship) -> Point {
    enemy.point.spec_offset(enemy.rotation as int, lead(from, enemy) as nat)
}

/// The ship after it was given `action` and the waypoint index `wp_ind`: a
/// shot starts the cooldown.
pub open spec fn ship_after(ship: Ship, action: Action, wp_ind: int) -> Ship {
    Ship {
        wp_ind: wp_ind as usize,
        cd: if action is FIRE {
            COOLDOWN
        } else {
            ship.cd
        },
        ..ship
    }
}

impl GameView {
    /// Where `ship` is bound, and the waypoint index that it has from now
    /// on: the nearest live barrel and the index as it is, or else the
    /// waypoint that the ship heads for and the index of that.
    pub open spec fn destination(self, ship: Ship) -> (Point, int) {
        match self.nearest_barrel(ship.point) {
            Some(k) => (self.barrels[k].point, ship.wp_ind as int),
            None => (waypoint(waypoint_index(ship)), waypoint_index(ship)),
        }
    }

    /// The cell that `ship` fires at ahead of the nearest live enemy, if it
    /// may fire, there is such an enemy, and the cell is within range.
    pub open spec fn shot_ahead(self, ship: Ship) -> Option<Point> {
        match self.nearest_enemy(ship.point) {
            Some(k) => {
                let aim = intercept(ship.point, self.enemy_ships[k]);
                if ship.cd == 0 && ship.point.spec_distance(aim) < FIRE_RANGE {
                    Some(aim)
                } else {
                    None
                }
            },
            None => None,
        }
    }

    /// What `ship` does in this turn, and the waypoint index that it has from
    /// now on.
    pub open spec fn decision(self, ship: Ship) -> (Action, int) {
        let threat = self.imminent_target(ship);
        if ship.cd == 0 && threat is Some {
            let enemy = self.enemy_ships[threat->0];
            (Action::FIRE(enemy.point.x, enemy.point.y), ship.wp_ind as int)
        } else {
            let (dest, wp_ind) = self.destination(ship);
            match self.shot_ahead(ship) {
                Some(aim) => (Action::FIRE(aim.x, aim.y), wp_ind),
                None => (
                    self.choice(dest, ship.point, ship.rotation as int, ship.speed as int, ship.entity_id as int),
                    wp_ind,
                ),
            }
        }
    }

    /// The actions of the live ones among the first `n` own ships, in the
    /// order of the ships.
    pub open spec fn turn_actions(self, n: nat) -> Seq<Action>
        decreases n,
    {
        if n == 0 {
            Seq::empty()
        } else {
            let before = self.turn_actions((n - 1) as nat);
            let ship = self.my_ships[n - 1];
            if ship.live(self.current_tick) {
                before.push(self.decision(ship).0)
            } else {
                before
            }
        }
    }

    /// The own ships after the turn: every live ship has taken its decision,
    /// the others are as they were.
    pub open spec fn ships_after_turn(self) -> Seq<Ship> {
        Seq::new(
            self.my_ships.len(),
            |i: int|
                if self.my_ships[i].live(self.current_tick) {
                    ship_after(
                        self.my_ships[i],
                        self.decision(self.my_ships[i]).0,
                        self.decision(self.my_ships[i]).1,
                    )
                } else {
                    self.my_ships[i]
                },
        )
    }

    /// The world after the turn.
    pub open spec fn after_turn(self) -> GameView {
        GameView { my_ships: self.ships_after_turn(), ..self }
    }

    /// The world one tick later, before anything is reported.
    pub open spec fn next_tick(self) -> GameView {
        GameView { current_tick: self.current_tick + 1, ..self }
    }

    /// The world after a snapshot was taken in and the turn was made, with
    /// the actions of the turn; or the reason why the snapshot was not taken
    /// in.
    pub open spec fn snapshot_taken(self, records: Seq<EntityRecord>) -> Result<
        (GameView, Seq<Action>),
        SnapshotError,
    > {
        match self.absorbed(records, records.len()) {
            Err(e) => Err(e),
            Ok(world) => {
                let ready = world.rebuilt();
                Ok((ready.after_turn(), ready.turn_actions(ready.my_ships.len())))
            },
        }
    }
}

impl Game {
    /// What the own ship at `index` does in this turn, and the waypoint index
    /// that it has from now on.
    pub fn decide(&self, index: usize) -> (result: (Action, usize))
        requires
            self.wf(),
            index < self.my_ships.len(),
        ensures
            (result.0, result.1 as int) == self@.decision(self.my_ships[index as int]),
            result.1 < WAYPOINTS,
    {
        let ship: Ship = self.my_ships[index];
        if ship.cd == 0 {
            match self.target_index(&ship) {
                Some(k) => {
                    let enemy: &Ship = &self.enemy_ships[k];
                    return (Action::FIRE(enemy.point.x, enemy.point.y), ship.wp_ind);
                },
                None => {},
            }
        }
        let (dest, wp_ind): (Point, usize) = match self.barrel_index(&ship.point) {
            Some(k) => (self.barrels[k].point, ship.wp_ind),
            None => Game::get_waypoint(&ship),
        };
        if ship.cd == 0 {
            match self.enemy_index(&ship.point) {
                Some(k) => {
                    let enemy: &Ship = &self.enemy_ships[k];
                    let ahead: i32 = if enemy.speed == 0 {
                        0
                    } else {
                        1 + ship.point.distance(&enemy.point) / LEAD_DIVISOR
                    };
                    let aim: Point = enemy.point.get_offset(enemy.rotation, ahead);
                    if ship.point.distance(&aim) < FIRE_RANGE {
                        return (Action::FIRE(aim.x, aim.y), wp_ind);
                    }
                },
                None => {},
            }
        }
        let action: Action = self.move_to(&dest, &ship.point, ship.rotation, ship.speed, ship.entity_id);
        (action, wp_ind)
    }

    /// Makes the turn: decides for every live own ship, in the order of the
    /// ships, and returns the actions in that order. A ship that fires starts
    /// its cooldown, and a ship that was sent to a waypoint remembers which.
    pub fn do_next_turn(&mut self) -> (actions: Vec<Action>)
        requires
            old(self).wf(),
        ensures
            actions@ == old(self)@.turn_actions(old(self).my_ships.len() as nat),
            final(self)@ == old(self)@.after_turn(),
            final(self).wf(),
    {
        let mut actions: Vec<Action> = Vec::new();
        let mut ships: Vec<Ship> = Vec::new();
        let mut i: usize = 0;
        while i < self.my_ships.len()
            invariant
                i <= self.my_ships.len(),
                self.wf(),
                ships.len() == i,
                actions@ == self@.turn_actions(i as nat),
                forall|k: int| 0 <= k < i ==> (#[trigger] ships[k]) == self@.ships_after_turn()[k],
            decreases self.my_ships.len() - i,
        {
            let mut ship: Ship = self.my_ships[i];
            if ship.is_alive(self.current_tick) {
                let (action, wp_ind): (Action, usize) = self.decide(i);
                ship.wp_ind = wp_ind;
                match action {
                    Action::FIRE(_, _) => {
                        ship.set_cd(COOLDOWN);
                    },
                    _ => {},
                }
                actions.push(action);
            }
            ships.push(ship);
            i = i + 1;
        }
        assert(ships@ =~= self@.ships_after_turn());
        self.my_ships = ships;
        actions
    }

    /// Takes the records of a snapshot in, builds the hazard field and makes
    /// the turn.
    pub fn take_snapshot(&mut self, records: &Vec<EntityRecord>) -> (result: Result<Vec<Action>, SnapshotError>)
        requires
            old(self).wf(),
        ensures
            match old(self)@.snapshot_taken(records@) {
                Ok((world, actions)) => result is Ok && result->Ok_0@ == actions && final(self)@ == world,
                Err(e) => result is Err && result->Err_0 == e && final(self)@ == old(self)@.salvaged(
                    records@,
                    records.len() as nat,
                ),
            },
            final(self).wf(),
    {
        match self.absorb(records) {
            Ok(_) => {},
            Err(e) => {
                return Err(e);
            },
        }
        self.calc_under_fire();
        Ok(self.do_next_turn())
    }

    /// Starts a game: forgets everything, takes the first snapshot in at
    /// tick zero and makes the first turn.
    pub fn init(&mut self, records: &Vec<EntityRecord>) -> (result: Result<Vec<Action>, SnapshotError>)
        ensures
            match GameView::empty().snapshot_taken(records@) {
                Ok((world, actions)) => result is Ok && result->Ok_0@ == actions && final(self)@ == world,
                Err(e) => result is Err && result->Err_0 == e && final(self)@ == GameView::empty().salvaged(
                    records@,
                    records.len() as nat,
                ),
            },
            final(self).wf(),
    {
        *self = Game::new();
        self.take_snapshot(records)
    }

    /// Plays one tick: advances the tick counter, takes the snapshot in and
    /// makes the turn.
    pub fn play(&mut self, records: &Vec<EntityRecord>) -> (result: Result<Vec<Action>, SnapshotError>)
        requires
            old(self).wf(),
        ensures
            old(self)@.current_tick == i32::MAX ==> result is Err && result->Err_0 == SnapshotError::TickLimit
                && final(self)@ == old(self)@,
            old(self)@.current_tick < i32::MAX ==> match old(self)@.next_tick().snapshot_taken(records@) {
                Ok((world, actions)) => result is Ok && result->Ok_0@ == actions && final(self)@ == world,
                Err(e) => result is Err && result->Err_0 == e && final(self)@ == old(self)@.next_tick().salvaged(
                    records@,
                    records.len() as nat,
                ),
            },
            final(self).wf(),
    {
        if self.current_tick == i32::MAX {
            return Err(SnapshotError::TickLimit);
        }
        self.current_tick = self.current_tick + 1;
        self.take_snapshot(records)
    }
}

} // verus!
