//! The world as the agent knows it: every entity that was ever reported, the
//! current tick, and the hazard field of that tick.
//!
//! Entities are kept in the order of their first sighting, which is the order
//! in which every scan visits them. An identity occurs once in its
//! collection.

use vstd::prelude::*;
use crate::entity::{Barrel, Cannoball, Mine, Ship};
use crate::field::HazardField;
use crate::geometry::Point;

verus! {

/// The state of the game between two decisions.
pub struct Game {
    pub my_ships: Vec<Ship>,
    pub enemy_ships: Vec<Ship>,
    pub barrels: Vec<Barrel>,
    pub mines: Vec<Mine>,
    pub cannonballs: Vec<Cannoball>,
    pub current_tick: i32,
    pub field: HazardField,
}

/// The mathematical content of a [`Game`].
pub struct GameView {
    pub my_ships: Seq<Ship>,
    pub enemy_ships: Seq<Ship>,
    pub barrels: Seq<Barrel>,
    pub mines: Seq<Mine>,
    pub cannonballs: Seq<Cannoball>,
    pub current_tick: int,
    /// The cells under fire, each with the ticks until the impact.
    pub under_fire: Map<Point, int>,
    /// The cells that hold a barrel.
    pub barrels_field: Set<Point>,
    /// The cells that hold a mine.
    pub mine_field: Set<Point>,
}

/// Whether every ship is well formed, was last seen no later than `tick`, and
/// has an identity of its own.
pub open spec fn ships_wf(ships: Seq<Ship>, tick: int) -> bool {
    &&& forall|i: int| 0 <= i < ships.len() ==> (#[trigger] ships[i]).wf() && ships[i].tick_accessed <= tick
    &&& forall|i: int, j: int|
        0 <= i < j < ships.len() ==> (#[trigger] ships[i]).entity_id != (#[trigger] ships[j]).entity_id
}

/// Whether every barrel is well formed, was last seen no later than `tick`,
/// and has an identity of its own.
pub open spec fn barrels_wf(barrels: Seq<Barrel>, tick: int) -> bool {
    &&& forall|i: int| 0 <= i < barrels.len() ==> (#[trigger] barrels[i]).wf() && barrels[i].tick_accessed <= tick
    &&& forall|i: int, j: int|
        0 <= i < j < barrels.len() ==> (#[trigger] barrels[i]).entity_id != (#[trigger] barrels[j]).entity_id
}

/// Whether every mine is well formed, was last seen no later than `tick`, and
/// has an identity of its own.
pub open spec fn mines_wf(mines: Seq<Mine>, tick: int) -> bool {
    &&& forall|i: int| 0 <= i < mines.len() ==> (#[trigger] mines[i]).wf() && mines[i].tick_accessed <= tick
    &&& forall|i: int, j: int|
        0 <= i < j < mines.len() ==> (#[trigger] mines[i]).entity_id != (#[trigger] mines[j]).entity_id
}

/// Whether every cannonball is well formed, was last seen no later than
/// `tick`, and has an identity of its own.
pub open spec fn cannonballs_wf(balls: Seq<Cannoball>, tick: int) -> bool {
    &&& forall|i: int| 0 <= i < balls.len() ==> (#[trigger] balls[i]).wf() && balls[i].tick_accessed <= tick
    &&& forall|i: int, j: int|
        0 <= i < j < balls.len() ==> (#[trigger] balls[i]).entity_id != (#[trigger] balls[j]).entity_id
}

impl GameView {
    /// The world before the first snapshot.
    pub open spec fn empty() -> GameView {
        GameView {
            my_ships: Seq::empty(),
            enemy_ships: Seq::empty(),
            barrels: Seq::empty(),
            mines: Seq::empty(),
            cannonballs: Seq::empty(),
            current_tick: 0,
            under_fire: Map::empty(),
            barrels_field: Set::empty(),
            mine_field: Set::empty(),
        }
    }

    /// The invariant of the world.
    pub open spec fn wf(self) -> bool {
        &&& 0 <= self.current_tick <= i32::MAX
        &&& ships_wf(self.my_ships, self.current_tick)
        &&& ships_wf(self.enemy_ships, self.current_tick)
        &&& barrels_wf(self.barrels, self.current_tick)
        &&& mines_wf(self.mines, self.current_tick)
        &&& cannonballs_wf(self.cannonballs, self.current_tick)
    }
}

impl View for Game {
    type V = GameView;

    open spec fn view(&self) -> GameView {
        GameView {
            my_ships: self.my_ships@,
            enemy_ships: self.enemy_ships@,
            barrels: self.barrels@,
            mines: self.mines@,
            cannonballs: self.cannonballs@,
            current_tick: self.current_tick as int,
            under_fire: self.field.fire(),
            barrels_field: self.field.barrels(),
            mine_field: self.field.mines(),
        }
    }
}

impl Game {
    /// The invariant of the world.
    pub open spec fn wf(&self) -> bool {
        self@.wf()
    }

    /// A world without entities, at tick zero.
    pub fn new() -> (game: Game)
        ensures
            game@ == GameView::empty(),
            game.wf(),
    {
        Game {
            my_ships: Vec::new(),
            enemy_ships: Vec::new(),
            barrels: Vec::new(),
            mines: Vec::new(),
            cannonballs: Vec::new(),
            current_tick: 0,
            field: HazardField::new(),
        }
    }
}

impl Default for Game {
    fn default() -> (game: Game)
        ensures
            game@ == GameView::empty(),
            game.wf(),
    {
        Game::new()
    }
}

} // verus!
