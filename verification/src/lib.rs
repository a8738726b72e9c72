//! Decision core of an agent for a turn-based naval game on a bounded
//! hexagonal board.
//!
//! Once per tick the agent is told which ships, barrels, mines and
//! cannonballs are in sight. From that it derives where danger and rum lie,
//! picks targets, and plans one action for each of its ships by looking three
//! moves ahead.
//!
//! - [`geometry`] and [`bearing`]: distances, neighbours, straight lines and
//!   the comparison of headings on the hexagonal grid.
//! - [`parse`]: the lines of a snapshot.
//! - [`entity`], [`snapshot`], [`game`], [`observe`], [`validate`]: the
//!   entities, the records that report them, and the world that remembers
//!   them.
//! - [`field`]: the hazard field of a tick.
//! - [`targeting`]: whom to fire at and where to go.
//! - [`planner`]: which move to make.
//! - [`turn`]: one action for every live own ship, tick after tick.
//! - [`action`]: the actions.
//!
//! The modules whose names end in `_laws` state and prove what holds of the
//! others in general.

pub mod action;
pub mod bearing;
pub mod entity;
pub mod field;
pub mod field_laws;
pub mod game;
pub mod geometry;
pub mod geometry_laws;
pub mod invariant_laws;
pub mod observe;
pub mod observe_laws;
pub mod parse;
pub mod planner;
pub mod planner_laws;
pub mod snapshot;
pub mod targeting;
pub mod targeting_laws;
pub mod turn;
pub mod turn_laws;
pub mod validate;
