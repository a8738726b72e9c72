//! The commands that a ship can be given.

use vstd::prelude::*;
use crate::geometry::is_rotation;

verus! {

/// One command for one ship in one tick.
#[derive(PartialEq, Eq, Structural, Clone, Copy, Debug)]
pub enum Action {
    /// Hold course and speed.
    WAIT,
    /// Speed up by one.
    FASTER,
    /// Slow down by one.
    SLOWER,
    /// Turn one facing to the left.
    PORT,
    /// Turn one facing to the right.
    STARBOARD,
    /// Fire at the cell with the given column and row.
    FIRE(i32, i32),
    /// Drop a mine.
    MINE,
}

impl Action {
    /// Whether the action is one of the five that move a ship.
    pub open spec fn is_move(self) -> bool {
        self is WAIT || self is FASTER || self is SLOWER || self is PORT || self is STARBOARD
    }

    /// The speed of a ship after the action: speeding up stops at the highest
    /// speed and slowing down at rest.
    pub open spec fn speed_after(self, speed: int) -> int {
        if self is FASTER && speed < 2 {
            speed + 1
        } else if self is SLOWER && speed > 0 {
            speed - 1
        } else {
            speed
        }
    }

    /// The facing of a ship after the action.
    pub open spec fn rotation_after(self, rotation: int) -> int {
        if self is PORT {
            (rotation + 1) % 6
        } else if self is STARBOARD {
            (rotation + 5) % 6
        } else {
            rotation
        }
    }

    /// The speed of a ship after the action.
    pub fn speed_from(&self, speed: i32) -> (after: i32)
        ensures
            after == self.speed_after(speed as int),
    {
        match self {
            Action::FASTER => if speed < 2 {
                speed + 1
            } else {
                speed
            },
            Action::SLOWER => if speed > 0 {
                speed - 1
            } else {
                speed
            },
            _ => speed,
        }
    }

    /// The facing of a ship after the action.
    pub fn rotation_from(&self, rotation: i32) -> (after: i32)
        requires
            is_rotation(rotation as int),
        ensures
            after == self.rotation_after(rotation as int),
            is_rotation(after as int),
            (self is PORT || self is STARBOARD) <==> after != rotation,
    {
        match self {
            Action::PORT => (rotation + 1) % 6,
            Action::STARBOARD => (rotation + 5) % 6,
            _ => rotation,
        }
    }
}

} // verus!
