//! Taking the records of a snapshot into the world.
//!
//! An entity that is reported for the first time is entered behind those that
//! are known. One that is known is refreshed where it stands, so the order of
//! first sighting never changes. Nothing is ever removed: an entity that is
//! no longer reported keeps its record and is passed over as long as it is
//! not heard of again.

use vstd::prelude::*;
use crate::entity::{Barrel, Cannoball, Mine, Ship};
use crate::game::{Game, GameView, barrels_wf, cannonballs_wf, mines_wf, ships_wf};
use crate::snapshot::{EntityRecord, Sighting, SnapshotError, sighting_of};

verus! {

/// The index of the first of the first `n` identities that equals `id`, if
/// there is one.
pub open spec fn first_index(ids: Seq<int>, id: int, n: nat) -> Option<int>
    decreases n,
{
    if n == 0 {
        None
    } else {
        let before = first_index(ids, id, (n - 1) as nat);
        if before is Some {
            before
        } else if ids[n - 1] == id {
            Some(n - 1)
        } else {
            None
        }
    }
}

/// The identities of the ships, in their order.
pub open spec fn ship_ids(ships: Seq<Ship>) -> Seq<int> {
    Seq::new(ships.len(), |i: int| ships[i].entity_id as int)
}

/// The identities of the barrels, in their order.
pub open spec fn barrel_ids(barrels: Seq<Barrel>) -> Seq<int> {
    Seq::new(barrels.len(), |i: int| barrels[i].entity_id as int)
}

/// The identities of the mines, in their order.
pub open spec fn mine_ids(mines: Seq<Mine>) -> Seq<int> {
    Seq::new(mines.len(), |i: int| mines[i].entity_id as int)
}

/// The identities of the cannonballs, in their order.
pub open spec fn cannonball_ids(balls: Seq<Cannoball>) -> Seq<int> {
    Seq::new(balls.len(), |i: int| balls[i].entity_id as int)
}

impl Ship {
    /// The ship after `report` was made of it in `tick`.
    pub open spec fn reported(self, tick: int, report: Ship) -> Ship {
        self.updated(tick as i32, report.point.x, report.point.y, report.rotation, report.speed, report.rum)
    }
}

/// The ships after `report` was made in `tick`. A ship that is known and was
/// not yet reported in `tick` is updated. One that is not known is entered:
/// as reported in the first tick, and updated to `tick` later on.
pub open spec fn ships_with(ships: Seq<Ship>, tick: int, report: Ship) -> Result<Seq<Ship>, SnapshotError> {
    match first_index(ship_ids(ships), report.entity_id as int, ships.len()) {
        Some(k) => if ships[k].live(tick) {
            Err(SnapshotError::DuplicateIdentity)
        } else {
            Ok(ships.update(k, ships[k].reported(tick, report)))
        },
        None => Ok(
            ships.push(
                if tick == 0 {
                    report
                } else {
                    report.reported(tick, report)
                },
            ),
        ),
    }
}

/// The barrels after `report` was made in `tick`. A barrel that is known
/// keeps what was first recorded of it.
pub open spec fn barrels_with(barrels: Seq<Barrel>, tick: int, report: Barrel) -> Result<
    Seq<Barrel>,
    SnapshotError,
> {
    match first_index(barrel_ids(barrels), report.entity_id as int, barrels.len()) {
        Some(k) => if barrels[k].live(tick) {
            Err(SnapshotError::DuplicateIdentity)
        } else {
            Ok(barrels.update(k, Barrel { tick_accessed: tick as i32, ..barrels[k] }))
        },
        None => Ok(
            barrels.push(
                if tick == 0 {
                    report
                } else {
                    Barrel { tick_accessed: tick as i32, ..report }
                },
            ),
        ),
    }
}

/// The mines after `report` was made in `tick`. A mine that is known keeps
/// what was first recorded of it.
pub open spec fn mines_with(mines: Seq<Mine>, tick: int, report: Mine) -> Result<Seq<Mine>, SnapshotError> {
    match first_index(mine_ids(mines), report.entity_id as int, mines.len()) {
        Some(k) => if mines[k].live(tick) {
            Err(SnapshotError::DuplicateIdentity)
        } else {
            Ok(mines.update(k, Mine { tick_accessed: tick as i32, ..mines[k] }))
        },
        None => Ok(
            mines.push(
                if tick == 0 {
                    report
                } else {
                    Mine { tick_accessed: tick as i32, ..report }
                },
            ),
        ),
    }
}

/// The cannonballs after `report` was made in `tick`. A cannonball that is
/// known keeps its target and comes one tick closer to its impact; so does
/// one that is entered after the first tick.
pub open spec fn cannonballs_with(balls: Seq<Cannoball>, tick: int, report: Cannoball) -> Result<
    Seq<Cannoball>,
    SnapshotError,
> {
    match first_index(cannonball_ids(balls), report.entity_id as int, balls.len()) {
        Some(k) => if balls[k].live(tick) {
            Err(SnapshotError::DuplicateIdentity)
        } else {
            Ok(balls.update(k, balls[k].kept_alive(tick as i32)))
        },
        None => Ok(
            balls.push(
                if tick == 0 {
                    report
                } else {
                    report.kept_alive(tick as i32)
                },
            ),
        ),
    }
}

impl GameView {
    /// The world after `sighting` was entered, or the reason why it was not.
    pub open spec fn observed(self, sighting: Sighting) -> Result<GameView, SnapshotError> {
        match sighting {
            Sighting::OwnShip(ship) => match ships_with(self.my_ships, self.current_tick, ship) {
                Ok(ships) => Ok(GameView { my_ships: ships, ..self }),
                Err(e) => Err(e),
            },
            Sighting::EnemyShip(ship) => match ships_with(self.enemy_ships, self.current_tick, ship) {
                Ok(ships) => Ok(GameView { enemy_ships: ships, ..self }),
                Err(e) => Err(e),
            },
            Sighting::Barrel(barrel) => match barrels_with(self.barrels, self.current_tick, barrel) {
                Ok(barrels) => Ok(GameView { barrels: barrels, ..self }),
                Err(e) => Err(e),
            },
            Sighting::Mine(mine) => match mines_with(self.mines, self.current_tick, mine) {
                Ok(mines) => Ok(GameView { mines: mines, ..self }),
                Err(e) => Err(e),
            },
            Sighting::Cannonball(ball) => match cannonballs_with(self.cannonballs, self.current_tick, ball) {
                Ok(balls) => Ok(GameView { cannonballs: balls, ..self }),
                Err(e) => Err(e),
            },
        }
    }

    /// The world after as many of the first `n` of `records` were entered as
    /// could be entered before one could not: what is left of a snapshot
    /// that was not taken in as a whole.
    pub open spec fn salvaged(self, records: Seq<EntityRecord>, n: nat) -> GameView
        decreases n,
    {
        if n == 0 {
            self
        } else {
            match self.absorbed(records, n) {
                Ok(world) => world,
                Err(_) => self.salvaged(records, (n - 1) as nat),
            }
        }
    }

    /// The world after the first `n` of `records` were entered one after the
    /// other, or the reason why the first record that was not entered was
    /// not.
    pub open spec fn absorbed(self, records: Seq<EntityRecord>, n: nat) -> Result<GameView, SnapshotError>
        decreases n,
    {
        if n == 0 {
            Ok(self)
        } else {
            match self.absorbed(records, (n - 1) as nat) {
                Err(e) => Err(e),
                Ok(world) => match sighting_of(records[n - 1]) {
                    Err(e) => Err(e),
                    Ok(sighting) => world.observed(sighting),
                },
            }
        }
    }
}

/// What [`first_index`] finds: an index below `n` at which `id` stands and
/// before which it does not, or nothing where `id` stands nowhere below `n`.
pub proof fn lemma_first_index(ids: Seq<int>, id: int, n: nat)
    requires
        n <= ids.len(),
    ensures
        match first_index(ids, id, n) {
            Some(k) => 0 <= k < n && ids[k] == id && forall|j: int| 0 <= j < k ==> ids[j] != id,
            None => forall|j: int| 0 <= j < n ==> ids[j] != id,
        },
    decreases n,
{
    if n > 0 {
        lemma_first_index(ids, id, (n - 1) as nat);
    }
}

/// An identity that was found among the first `n` is found at the same index
/// among more.
pub proof fn lemma_first_index_stays(ids: Seq<int>, id: int, n: nat, m: nat)
    requires
        n <= m,
        first_index(ids, id, n) is Some,
    ensures
        first_index(ids, id, m) == first_index(ids, id, n),
    decreases m,
{
    if n < m {
        lemma_first_index_stays(ids, id, n, (m - 1) as nat);
    }
}

/// The index of the ship with the identity `id`.
pub fn find_ship(ships: &Vec<Ship>, id: i32) -> (found: Option<usize>)
    ensures
        found is Some <==> first_index(ship_ids(ships@), id as int, ships.len() as nat) is Some,
        found is Some ==> found->0 == first_index(ship_ids(ships@), id as int, ships.len() as nat)->0,
        found is Some ==> found->0 < ships.len() && ships[found->0 as int].entity_id == id,
        found is None ==> forall|j: int| 0 <= j < ships.len() ==> ships[j].entity_id != id,
{
    let mut i: usize = 0;
    while i < ships.len()
        invariant
            i <= ships.len(),
            first_index(ship_ids(ships@), id as int, i as nat) is None,
        decreases ships.len() - i,
    {
        if ships[i].entity_id == id {
            proof {
                lemma_first_index_stays(ship_ids(ships@), id as int, (i + 1) as nat, ships.len() as nat);
            }
            return Some(i);
        }
        i = i + 1;
    }
    proof {
        lemma_first_index(ship_ids(ships@), id as int, ships.len() as nat);
        assert forall|j: int| 0 <= j < ships.len() implies ships[j].entity_id != id by {
            assert(ship_ids(ships@)[j] == ships[j].entity_id);
        }
    }
    None
}

/// The index of the barrel with the identity `id`.
pub fn find_barrel(barrels: &Vec<Barrel>, id: i32) -> (found: Option<usize>)
    ensures
        found is Some <==> first_index(barrel_ids(barrels@), id as int, barrels.len() as nat) is Some,
        found is Some ==> found->0 == first_index(barrel_ids(barrels@), id as int, barrels.len() as nat)->0,
        found is Some ==> found->0 < barrels.len() && barrels[found->0 as int].entity_id == id,
        found is None ==> forall|j: int| 0 <= j < barrels.len() ==> barrels[j].entity_id != id,
{
    let mut i: usize = 0;
    while i < barrels.len()
        invariant
            i <= barrels.len(),
            first_index(barrel_ids(barrels@), id as int, i as nat) is None,
        decreases barrels.len() - i,
    {
        if barrels[i].entity_id == id {
            proof {
                lemma_first_index_stays(barrel_ids(barrels@), id as int, (i + 1) as nat, barrels.len() as nat);
            }
            return Some(i);
        }
        i = i + 1;
    }
    proof {
        lemma_first_index(barrel_ids(barrels@), id as int, barrels.len() as nat);
        assert forall|j: int| 0 <= j < barrels.len() implies barrels[j].entity_id != id by {
            assert(barrel_ids(barrels@)[j] == barrels[j].entity_id);
        }
    }
    None
}

/// The index of the mine with the identity `id`.
pub fn find_mine(mines: &Vec<Mine>, id: i32) -> (found: Option<usize>)
    ensures
        found is Some <==> first_index(mine_ids(mines@), id as int, mines.len() as nat) is Some,
        found is Some ==> found->0 == first_index(mine_ids(mines@), id as int, mines.len() as nat)->0,
        found is Some ==> found->0 < mines.len() && mines[found->0 as int].entity_id == id,
        found is None ==> forall|j: int| 0 <= j < mines.len() ==> mines[j].entity_id != id,
{
    let mut i: usize = 0;
    while i < mines.len()
        invariant
            i <= mines.len(),
            first_index(mine_ids(mines@), id as int, i as nat) is None,
        decreases mines.len() - i,
    {
        if mines[i].entity_id == id {
            proof {
                lemma_first_index_stays(mine_ids(mines@), id as int, (i + 1) as nat, mines.len() as nat);
            }
            return Some(i);
        }
        i = i + 1;
    }
    proof {
        lemma_first_index(mine_ids(mines@), id as int, mines.len() as nat);
        assert forall|j: int| 0 <= j < mines.len() implies mines[j].entity_id != id by {
            assert(mine_ids(mines@)[j] == mines[j].entity_id);
        }
    }
    None
}

/// The index of the cannonball with the identity `id`.
pub fn find_cannonball(balls: &Vec<Cannoball>, id: i32) -> (found: Option<usize>)
    ensures
        found is Some <==> first_index(cannonball_ids(balls@), id as int, balls.len() as nat) is Some,
        found is Some ==> found->0 == first_index(cannonball_ids(balls@), id as int, balls.len() as nat)->0,
        found is Some ==> found->0 < balls.len() && balls[found->0 as int].entity_id == id,
        found is None ==> forall|j: int| 0 <= j < balls.len() ==> balls[j].entity_id != id,
{
    let mut i: usize = 0;
    while i < balls.len()
        invariant
            i <= balls.len(),
            first_index(cannonball_ids(balls@), id as int, i as nat) is None,
        decreases balls.len() - i,
    {
        if balls[i].entity_id == id {
            proof {
                lemma_first_index_stays(cannonball_ids(balls@), id as int, (i + 1) as nat, balls.len() as nat);
            }
            return Some(i);
        }
        i = i + 1;
    }
    proof {
        lemma_first_index(cannonball_ids(balls@), id as int, balls.len() as nat);
        assert forall|j: int| 0 <= j < balls.len() implies balls[j].entity_id != id by {
            assert(cannonball_ids(balls@)[j] == balls[j].entity_id);
        }
    }
    None
}

/// Enters the report of a ship made in `tick`.
pub fn observe_ship(ships: &mut Vec<Ship>, tick: i32, report: &Ship) -> (result: Result<(), SnapshotError>)
    requires
        0 <= tick,
        ships_wf(old(ships)@, tick as int),
        report.wf(),
        report.tick_accessed == 0,
    ensures
        result is Ok <==> ships_with(old(ships)@, tick as int, *report) is Ok,
        result is Ok ==> final(ships)@ == ships_with(old(ships)@, tick as int, *report)->Ok_0,
        result is Err ==> result->Err_0 == ships_with(old(ships)@, tick as int, *report)->Err_0 && final(ships)@
            == old(ships)@,
        ships_wf(final(ships)@, tick as int),
{
    match find_ship(ships, report.entity_id) {
        Some(k) => {
            let mut ship: Ship = ships[k];
            if ship.is_alive(tick) {
                return Err(SnapshotError::DuplicateIdentity);
            }
            ship.update(tick, report.point.x, report.point.y, report.rotation, report.speed, report.rum);
            ships.set(k, ship);
        },
        None => {
            let mut ship: Ship = *report;
            if tick != 0 {
                ship.update(tick, report.point.x, report.point.y, report.rotation, report.speed, report.rum);
            }
            ships.push(ship);
        },
    }
    Ok(())
}

/// Enters the report of a barrel made in `tick`.
pub fn observe_barrel(barrels: &mut Vec<Barrel>, tick: i32, report: &Barrel) -> (result: Result<(), SnapshotError>)
    requires
        0 <= tick,
        barrels_wf(old(barrels)@, tick as int),
        report.wf(),
        report.tick_accessed == 0,
    ensures
        result is Ok <==> barrels_with(old(barrels)@, tick as int, *report) is Ok,
        result is Ok ==> final(barrels)@ == barrels_with(old(barrels)@, tick as int, *report)->Ok_0,
        result is Err ==> result->Err_0 == barrels_with(old(barrels)@, tick as int, *report)->Err_0 && final(barrels)@ == old(barrels)@,
        barrels_wf(final(barrels)@, tick as int),
{
    match find_barrel(barrels, report.entity_id) {
        Some(k) => {
            let mut barrel: Barrel = barrels[k];
            if barrel.is_alive(tick) {
                return Err(SnapshotError::DuplicateIdentity);
            }
            barrel.keep_alive(tick);
            barrels.set(k, barrel);
        },
        None => {
            let mut barrel: Barrel = *report;
            if tick != 0 {
                barrel.keep_alive(tick);
            }
            barrels.push(barrel);
        },
    }
    Ok(())
}

/// Enters the report of a mine made in `tick`.
pub fn observe_mine(mines: &mut Vec<Mine>, tick: i32, report: &Mine) -> (result: Result<(), SnapshotError>)
    requires
        0 <= tick,
        mines_wf(old(mines)@, tick as int),
        report.wf(),
        report.tick_accessed == 0,
    ensures
        result is Ok <==> mines_with(old(mines)@, tick as int, *report) is Ok,
        result is Ok ==> final(mines)@ == mines_with(old(mines)@, tick as int, *report)->Ok_0,
        result is Err ==> result->Err_0 == mines_with(old(mines)@, tick as int, *report)->Err_0 && final(mines)@
            == old(mines)@,
        mines_wf(final(mines)@, tick as int),
{
    match find_mine(mines, report.entity_id) {
        Some(k) => {
            let mut mine: Mine = mines[k];
            if mine.is_alive(tick) {
                return Err(SnapshotError::DuplicateIdentity);
            }
            mine.keep_alive(tick);
            mines.set(k, mine);
        },
        None => {
            let mut mine: Mine = *report;
            if tick != 0 {
                mine.keep_alive(tick);
            }
            mines.push(mine);
        },
    }
    Ok(())
}

/// Enters the report of a cannonball made in `tick`.
pub fn observe_cannonball(balls: &mut Vec<Cannoball>, tick: i32, report: &Cannoball) -> (result: Result<
    (),
    SnapshotError,
>)
    requires
        0 <= tick,
        cannonballs_wf(old(balls)@, tick as int),
        report.wf(),
        report.tick_accessed == 0,
    ensures
        result is Ok <==> cannonballs_with(old(balls)@, tick as int, *report) is Ok,
        result is Ok ==> final(balls)@ == cannonballs_with(old(balls)@, tick as int, *report)->Ok_0,
        result is Err ==> result->Err_0 == cannonballs_with(old(balls)@, tick as int, *report)->Err_0 && final(balls)@ == old(balls)@,
        cannonballs_wf(final(balls)@, tick as int),
{
    match find_cannonball(balls, report.entity_id) {
        Some(k) => {
            let mut ball: Cannoball = balls[k];
            if ball.is_alive(tick) {
                return Err(SnapshotError::DuplicateIdentity);
            }
            ball.keep_alive(tick);
            balls.set(k, ball);
        },
        None => {
            let mut ball: Cannoball = *report;
            if tick != 0 {
                ball.keep_alive(tick);
            }
            balls.push(ball);
        },
    }
    Ok(())
}

impl Game {
    /// Enters one sighting into the world. Where it cannot be entered, the
    /// world stays as it is.
    pub fn observe(&mut self, sighting: &Sighting) -> (result: Result<(), SnapshotError>)
        requires
            old(self).wf(),
            sighting.wf(),
        ensures
            result is Ok <==> old(self)@.observed(*sighting) is Ok,
            result is Ok ==> final(self)@ == old(self)@.observed(*sighting)->Ok_0,
            result is Err ==> result->Err_0 == old(self)@.observed(*sighting)->Err_0 && final(self)@ == old(self)@,
            final(self).wf(),
    {
        match sighting {
            Sighting::OwnShip(ship) => observe_ship(&mut self.my_ships, self.current_tick, ship),
            Sighting::EnemyShip(ship) => observe_ship(&mut self.enemy_ships, self.current_tick, ship),
            Sighting::Barrel(barrel) => observe_barrel(&mut self.barrels, self.current_tick, barrel),
            Sighting::Mine(mine) => observe_mine(&mut self.mines, self.current_tick, mine),
            Sighting::Cannonball(ball) => observe_cannonball(&mut self.cannonballs, self.current_tick, ball),
        }
    }

    /// Enters the records of a snapshot one after the other and stops at the
    /// first that cannot be entered. Those before it stay entered.
    pub fn absorb(&mut self, records: &Vec<EntityRecord>) -> (result: Result<(), SnapshotError>)
        requires
            old(self).wf(),
        ensures
            result is Ok <==> old(self)@.absorbed(records@, records.len() as nat) is Ok,
            result is Ok ==> final(self)@ == old(self)@.absorbed(records@, records.len() as nat)->Ok_0,
            result is Err ==> result->Err_0 == old(self)@.absorbed(records@, records.len() as nat)->Err_0,
            final(self)@ == old(self)@.salvaged(records@, records.len() as nat),
            final(self).wf(),
    {
        let mut i: usize = 0;
        while i < records.len()
            invariant
                i <= records.len(),
                self.wf(),
                self@.current_tick == old(self)@.current_tick,
                old(self)@.absorbed(records@, i as nat) == Ok::<GameView, SnapshotError>(self@),
            decreases records.len() - i,
        {
            let entered: Result<(), SnapshotError> = match Sighting::from_record(&records[i]) {
                Ok(sighting) => self.observe(&sighting),
                Err(e) => Err(e),
            };
            match entered {
                Ok(_) => {},
                Err(e) => {
                    proof {
                        lemma_absorbed_error_stays(
                            old(self)@,
                            records@,
                            (i + 1) as nat,
                            records.len() as nat,
                        );
                        lemma_salvaged(old(self)@, records@, i as nat, records.len() as nat);
                    }
                    return Err(e);
                },
            }
            i = i + 1;
        }
        Ok(())
    }
}

/// What is left of a snapshot whose first `n` records were entered and whose
/// next record was not, is the world after those `n` records.
pub proof fn lemma_salvaged(world: GameView, records: Seq<EntityRecord>, n: nat, m: nat)
    requires
        n <= m,
        world.absorbed(records, n) is Ok,
        n < m ==> world.absorbed(records, n + 1) is Err,
    ensures
        world.salvaged(records, m) == world.absorbed(records, n)->Ok_0,
    decreases m,
{
    if n < m {
        lemma_absorbed_error_stays(world, records, n + 1, m);
        lemma_salvaged(world, records, n, (m - 1) as nat);
    }
}

/// Once a record was not entered, the records behind it do not change the
/// reason.
pub proof fn lemma_absorbed_error_stays(world: GameView, records: Seq<EntityRecord>, n: nat, m: nat)
    requires
        n <= m,
        world.absorbed(records, n) is Err,
    ensures
        world.absorbed(records, m) == world.absorbed(records, n),
    decreases m,
{
    if n < m {
        lemma_absorbed_error_stays(world, records, n, (m - 1) as nat);
    }
}

} // verus!
