//! The entities of a snapshot: ships, barrels, mines and cannonballs.
//!
//! Every entity carries the tick in which it was last reported. It is alive
//! exactly in that tick; a record that is not refreshed stays in storage and
//! is passed over by everything that asks for live entities.

use vstd::prelude::*;
use crate::geometry::{Point, is_rotation};

verus! {

/// Number of patrol waypoints.
pub const WAYPOINTS: usize = 4;

/// Highest speed of a ship.
pub const MAX_SPEED: i32 = 2;

/// A ship, own or enemy.
#[derive(PartialEq, Eq, Structural, Clone, Copy, Debug)]
pub struct Ship {
    pub entity_id: i32,
    pub point: Point,
    pub rotation: i32,
    pub speed: i32,
    pub rum: i32,
    pub tick_accessed: i32,
    /// Ticks until the ship may fire again.
    pub cd: i32,
    /// Index of the patrol waypoint that the ship heads for when idle.
    pub wp_ind: usize,
}

/// A barrel of rum.
#[derive(PartialEq, Eq, Structural, Clone, Copy, Debug)]
pub struct Barrel {
    pub entity_id: i32,
    pub point: Point,
    pub quantity: i32,
    pub tick_accessed: i32,
}

/// A mine.
#[derive(PartialEq, Eq, Structural, Clone, Copy, Debug)]
pub struct Mine {
    pub entity_id: i32,
    pub point: Point,
    pub tick_accessed: i32,
    /// Whether a cannonball is on its way to the mine's cell.
    pub under_fire: bool,
}

/// A cannonball in flight.
#[derive(PartialEq, Eq, Structural, Clone, Copy, Debug)]
pub struct Cannoball {
    pub entity_id: i32,
    pub owner_id: i32,
    /// Ticks that remain until the impact.
    pub impact_time: i32,
    pub target: Point,
    pub tick_accessed: i32,
}

impl Ship {
    /// A ship as it is first recorded: never seen, ready to fire, and bound
    /// for the waypoint that its identity selects.
    pub open spec fn spec_new(entity_id: i32, x: i32, y: i32, rotation: i32, speed: i32, rum: i32) -> Ship {
        Ship {
            entity_id: entity_id,
            point: Point { x: x, y: y },
            rotation: rotation,
            speed: speed,
            rum: rum,
            tick_accessed: 0,
            cd: 0,
            wp_ind: (entity_id as int % 4) as usize,
        }
    }

    /// The ship after a report in `current_tick`: position, facing, speed and
    /// rum are as reported, and a running cooldown is one tick shorter.
    pub open spec fn updated(self, current_tick: i32, x: i32, y: i32, rotation: i32, speed: i32, rum: i32) -> Ship {
        Ship {
            entity_id: self.entity_id,
            point: Point { x: x, y: y },
            rotation: rotation,
            speed: speed,
            rum: rum,
            tick_accessed: current_tick,
            cd: if self.cd > 0 {
                (self.cd - 1) as i32
            } else {
                self.cd
            },
            wp_ind: self.wp_ind,
        }
    }

    /// Whether the ship was reported in `tick`.
    pub open spec fn live(self, tick: int) -> bool {
        self.tick_accessed == tick
    }

    /// Whether the ship is one that the planner can work with: a proper
    /// identity, a board cell, a facing, a speed within limits and a waypoint
    /// index.
    pub open spec fn wf(self) -> bool {
        &&& self.entity_id >= 0
        &&& self.point.on_board()
        &&& is_rotation(self.rotation as int)
        &&& 0 <= self.speed <= MAX_SPEED
        &&& self.wp_ind < WAYPOINTS
    }

    /// A ship as it is first recorded.
    pub fn new(entity_id: i32, x: i32, y: i32, rotation: i32, speed: i32, rum: i32) -> (ship: Ship)
        ensures
            ship == Ship::spec_new(entity_id, x, y, rotation, speed, rum),
    {
        let rem: i32 = entity_id % 4;
        let wp: i32 = if rem < 0 {
            rem + 4
        } else {
            rem
        };
        Ship {
            entity_id: entity_id,
            point: Point::new(x, y),
            rotation: rotation,
            speed: speed,
            rum: rum,
            tick_accessed: 0,
            cd: 0,
            wp_ind: wp as usize,
        }
    }

    /// Takes a report of the ship made in `current_tick`.
    pub fn update(&mut self, current_tick: i32, x: i32, y: i32, rotation: i32, speed: i32, rum: i32)
        ensures
            *final(self) == old(self).updated(current_tick, x, y, rotation, speed, rum),
    {
        self.tick_accessed = current_tick;
        self.point.x = x;
        self.point.y = y;
        self.rotation = rotation;
        self.speed = speed;
        self.rum = rum;
        if self.cd > 0 {
            self.cd = self.cd - 1;
        }
    }

    /// Sets the ticks that the ship waits before it may fire again.
    pub fn set_cd(&mut self, cd: i32)
        ensures
            *final(self) == (Ship { cd: cd, ..*old(self) }),
    {
        self.cd = cd
    }

    /// Whether the entity was reported in `current_tick`.
    pub fn is_alive(&self, current_tick: i32) -> (alive: bool)
        ensures
            alive == self.live(current_tick as int),
    {
        current_tick == self.tick_accessed
    }
}

impl Barrel {
    /// A barrel as it is first recorded.
    pub open spec fn spec_new(entity_id: i32, x: i32, y: i32, quantity: i32) -> Barrel {
        Barrel { entity_id: entity_id, point: Point { x: x, y: y }, quantity: quantity, tick_accessed: 0 }
    }

    /// Whether the barrel was reported in `tick`.
    pub open spec fn live(self, tick: int) -> bool {
        self.tick_accessed == tick
    }

    /// Whether the barrel has a proper identity and lies on the board.
    pub open spec fn wf(self) -> bool {
        self.entity_id >= 0 && self.point.on_board()
    }

    /// A barrel as it is first recorded.
    pub fn new(entity_id: i32, x: i32, y: i32, quantity: i32) -> (barrel: Barrel)
        ensures
            barrel == Barrel::spec_new(entity_id, x, y, quantity),
    {
        Barrel { entity_id: entity_id, point: Point::new(x, y), quantity: quantity, tick_accessed: 0 }
    }

    /// Notes that the barrel was reported in `current_tick`.
    pub fn keep_alive(&mut self, current_tick: i32)
        ensures
            *final(self) == (Barrel { tick_accessed: current_tick, ..*old(self) }),
    {
        self.tick_accessed = current_tick
    }

    /// Whether the entity was reported in `current_tick`.
    pub fn is_alive(&self, current_tick: i32) -> (alive: bool)
        ensures
            alive == self.live(current_tick as int),
    {
        current_tick == self.tick_accessed
    }
}

impl Mine {
    /// A mine as it is first recorded.
    pub open spec fn spec_new(entity_id: i32, x: i32, y: i32) -> Mine {
        Mine { entity_id: entity_id, point: Point { x: x, y: y }, tick_accessed: 0, under_fire: false }
    }

    /// Whether the mine was reported in `tick`.
    pub open spec fn live(self, tick: int) -> bool {
        self.tick_accessed == tick
    }

    /// Whether the mine has a proper identity and lies on the board.
    pub open spec fn wf(self) -> bool {
        self.entity_id >= 0 && self.point.on_board()
    }

    /// A mine as it is first recorded.
    pub fn new(entity_id: i32, x: i32, y: i32) -> (mine: Mine)
        ensures
            mine == Mine::spec_new(entity_id, x, y),
    {
        Mine { entity_id: entity_id, point: Point::new(x, y), tick_accessed: 0, under_fire: false }
    }

    /// Notes that the mine was reported in `current_tick`.
    pub fn keep_alive(&mut self, current_tick: i32)
        ensures
            *final(self) == (Mine { tick_accessed: current_tick, ..*old(self) }),
    {
        self.tick_accessed = current_tick
    }

    /// Whether the entity was reported in `current_tick`.
    pub fn is_alive(&self, current_tick: i32) -> (alive: bool)
        ensures
            alive == self.live(current_tick as int),
    {
        current_tick == self.tick_accessed
    }

    /// Marks the mine as one that a cannonball is on its way to.
    pub fn set_under_fire(&mut self)
        ensures
            *final(self) == (Mine { under_fire: true, ..*old(self) }),
    {
        self.under_fire = true;
    }

    /// Marks the mine as one that no cannonball is on its way to.
    pub fn clear_under_fire(&mut self)
        ensures
            *final(self) == (Mine { under_fire: false, ..*old(self) }),
    {
        self.under_fire = false;
    }
}

impl Cannoball {
    /// A cannonball as it is first recorded.
    pub open spec fn spec_new(entity_id: i32, owner_id: i32, impact_time: i32, x: i32, y: i32) -> Cannoball {
        Cannoball {
            entity_id: entity_id,
            owner_id: owner_id,
            impact_time: impact_time,
            target: Point { x: x, y: y },
            tick_accessed: 0,
        }
    }

    /// The cannonball after a report in `current_tick`: one tick closer to
    /// its impact.
    pub open spec fn kept_alive(self, current_tick: i32) -> Cannoball {
        Cannoball { tick_accessed: current_tick, impact_time: (self.impact_time - 1) as i32, ..self }
    }

    /// Whether the cannonball was reported in `tick`.
    pub open spec fn live(self, tick: int) -> bool {
        self.tick_accessed == tick
    }

    /// Whether the cannonball has a proper identity and a target on the
    /// board, and has not been counted down further than once a tick.
    pub open spec fn wf(self) -> bool {
        &&& self.entity_id >= 0
        &&& self.target.on_board()
        &&& self.tick_accessed >= 0
        &&& self.impact_time >= -self.tick_accessed
    }

    /// A cannonball as it is first recorded.
    pub fn new(entity_id: i32, owner_id: i32, impact_time: i32, x: i32, y: i32) -> (ball: Cannoball)
        ensures
            ball == Cannoball::spec_new(entity_id, owner_id, impact_time, x, y),
    {
        Cannoball {
            entity_id: entity_id,
            owner_id: owner_id,
            impact_time: impact_time,
            target: Point::new(x, y),
            tick_accessed: 0,
        }
    }

    /// Notes that the cannonball was reported in `current_tick`, one tick
    /// closer to its impact.
    pub fn keep_alive(&mut self, current_tick: i32)
        requires
            old(self).impact_time > i32::MIN,
        ensures
            *final(self) == old(self).kept_alive(current_tick),
    {
        self.tick_accessed = current_tick;
        self.impact_time = self.impact_time - 1;
    }

    /// Whether the entity was reported in `current_tick`.
    pub fn is_alive(&self, current_tick: i32) -> (alive: bool)
        ensures
            alive == self.live(current_tick as int),
    {
        current_tick == self.tick_accessed
    }
}

} // verus!
