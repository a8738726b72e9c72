//! The records of a snapshot and what they are taken for.
//!
//! A record carries an identity, the kind of the entity, a cell and four
//! numbers whose meaning depends on the kind. A record that cannot be taken
//! for an entity is answered with the reason.

use vstd::prelude::*;
use crate::entity::{Barrel, Cannoball, Mine, Ship, MAX_SPEED};
use crate::geometry::{Point, MAX_X, MAX_Y, is_rotation};

verus! {

/// The kinds of entity that a record can report.
#[derive(PartialEq, Eq, Structural, Clone, Copy, Debug)]
pub enum EntityKind {
    Ship,
    Barrel,
    Mine,
    Cannonball,
}

/// Why a snapshot was not taken in.
#[derive(PartialEq, Eq, Structural, Clone, Copy, Debug)]
pub enum SnapshotError {
    /// The line of an entity has fewer fields than it should.
    MissingField,
    /// A field that should hold a number holds none, or one that does not
    /// fit into 32 bits.
    BadNumber,
    /// The tag of a record names no kind of entity.
    UnknownEntityType,
    /// The identity of a record is negative.
    BadIdentity,
    /// The cell of a record lies off the board.
    OffBoard,
    /// The facing of a ship is none of the six.
    BadRotation,
    /// The speed of a ship is negative or above the highest speed.
    BadSpeed,
    /// The ticks until the impact of a cannonball are negative.
    BadImpactTime,
    /// An entity was reported twice in one tick.
    DuplicateIdentity,
    /// The tick counter cannot be advanced any further.
    TickLimit,
}

/// One record of a snapshot.
#[derive(PartialEq, Eq, Structural, Clone, Copy, Debug)]
pub struct EntityRecord {
    pub entity_id: i32,
    pub kind: EntityKind,
    pub x: i32,
    pub y: i32,
    /// Facing of a ship, quantity of a barrel, owner of a cannonball.
    pub arg_1: i32,
    /// Speed of a ship, ticks until the impact of a cannonball.
    pub arg_2: i32,
    /// Rum of a ship.
    pub arg_3: i32,
    /// One for an own ship.
    pub arg_4: i32,
}

/// An entity as a record reports it, not yet entered into the world.
#[derive(PartialEq, Eq, Structural, Clone, Copy, Debug)]
pub enum Sighting {
    OwnShip(Ship),
    EnemyShip(Ship),
    Barrel(Barrel),
    Mine(Mine),
    Cannonball(Cannoball),
}

/// What a record is taken for: the entity that it reports, or the first
/// reason in the order identity, cell, facing, speed, impact why it reports
/// none.
pub open spec fn sighting_of(record: EntityRecord) -> Result<Sighting, SnapshotError> {
    if record.entity_id < 0 {
        Err(SnapshotError::BadIdentity)
    } else if !(Point { x: record.x, y: record.y }).on_board() {
        Err(SnapshotError::OffBoard)
    } else {
        match record.kind {
            EntityKind::Ship => {
                if !is_rotation(record.arg_1 as int) {
                    Err(SnapshotError::BadRotation)
                } else if !(0 <= record.arg_2 <= MAX_SPEED) {
                    Err(SnapshotError::BadSpeed)
                } else {
                    let ship = Ship::spec_new(
                        record.entity_id,
                        record.x,
                        record.y,
                        record.arg_1,
                        record.arg_2,
                        record.arg_3,
                    );
                    if record.arg_4 == 1 {
                        Ok(Sighting::OwnShip(ship))
                    } else {
                        Ok(Sighting::EnemyShip(ship))
                    }
                }
            },
            EntityKind::Barrel => Ok(
                Sighting::Barrel(Barrel::spec_new(record.entity_id, record.x, record.y, record.arg_1)),
            ),
            EntityKind::Mine => Ok(Sighting::Mine(Mine::spec_new(record.entity_id, record.x, record.y))),
            EntityKind::Cannonball => {
                if record.arg_2 < 0 {
                    Err(SnapshotError::BadImpactTime)
                } else {
                    Ok(
                        Sighting::Cannonball(
                            Cannoball::spec_new(record.entity_id, record.arg_1, record.arg_2, record.x, record.y),
                        ),
                    )
                }
            },
        }
    }
}

impl Sighting {
    /// Whether the sighting holds an entity as it is first recorded: well
    /// formed, never seen, and, for a cannonball, with an impact that is yet
    /// to come.
    pub open spec fn wf(self) -> bool {
        match self {
            Sighting::OwnShip(ship) => ship.wf() && ship.tick_accessed == 0 && ship.cd == 0,
            Sighting::EnemyShip(ship) => ship.wf() && ship.tick_accessed == 0 && ship.cd == 0,
            Sighting::Barrel(barrel) => barrel.wf() && barrel.tick_accessed == 0,
            Sighting::Mine(mine) => mine.wf() && mine.tick_accessed == 0,
            Sighting::Cannonball(ball) => ball.wf() && ball.tick_accessed == 0,
        }
    }

    /// What `record` is taken for.
    pub fn from_record(record: &EntityRecord) -> (sighting: Result<Sighting, SnapshotError>)
        ensures
            sighting == sighting_of(*record),
            sighting is Ok ==> sighting->Ok_0.wf(),
    {
        if record.entity_id < 0 {
            return Err(SnapshotError::BadIdentity);
        }
        if record.x < 0 || record.x > MAX_X || record.y < 0 || record.y > MAX_Y {
            return Err(SnapshotError::OffBoard);
        }
        match record.kind {
            EntityKind::Ship => {
                if record.arg_1 < 0 || record.arg_1 >= 6 {
                    return Err(SnapshotError::BadRotation);
                }
                if record.arg_2 < 0 || record.arg_2 > MAX_SPEED {
                    return Err(SnapshotError::BadSpeed);
                }
                let ship: Ship = Ship::new(
                    record.entity_id,
                    record.x,
                    record.y,
                    record.arg_1,
                    record.arg_2,
                    record.arg_3,
                );
                if record.arg_4 == 1 {
                    Ok(Sighting::OwnShip(ship))
                } else {
                    Ok(Sighting::EnemyShip(ship))
                }
            },
            EntityKind::Barrel => Ok(
                Sighting::Barrel(Barrel::new(record.entity_id, record.x, record.y, record.arg_1)),
            ),
            EntityKind::Mine => Ok(Sighting::Mine(Mine::new(record.entity_id, record.x, record.y))),
            EntityKind::Cannonball => {
                if record.arg_2 < 0 {
                    return Err(SnapshotError::BadImpactTime);
                }
                Ok(
                    Sighting::Cannonball(
                        Cannoball::new(record.entity_id, record.arg_1, record.arg_2, record.x, record.y),
                    ),
                )
            },
        }
    }
}

} // verus!
