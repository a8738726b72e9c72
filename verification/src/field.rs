//! The hazard field: which cells cannonballs are about to hit, and which
//! cells hold mines and barrels.
//!
//! The field is derived from the live entities of one tick. It is built anew
//! in every tick and only read after that.

use vstd::prelude::*;
use std::collections::{HashMap, HashSet};
use crate::entity::{Barrel, Cannoball, Mine};
use crate::game::{Game, GameView};
use crate::geometry::Point;

verus! {

broadcast use vstd::std_specs::hash::group_hash_axioms;

/// Number of columns of the board.
pub const WIDTH: u64 = 23;

/// The three derived collections, keyed by [`cell_key`].
pub struct HazardField {
    pub under_fire: HashMap<u64, i32>,
    pub barrels_field: HashSet<u64>,
    pub mine_field: HashSet<u64>,
}

/// The key of a board cell: its index when the board is read row by row.
pub open spec fn cell_key(p: Point) -> u64 {
    (p.y * WIDTH + p.x) as u64
}

/// The smaller of two integers.
pub open spec fn min(a: int, b: int) -> int {
    if a <= b {
        a
    } else {
        b
    }
}

/// The cells that the live ones among the first `n` cannonballs are aimed
/// at, each with the least number of ticks until an impact there.
pub open spec fn fire_map(balls: Seq<Cannoball>, tick: int, n: nat) -> Map<Point, int>
    decreases n,
{
    if n == 0 {
        Map::empty()
    } else {
        let rest = fire_map(balls, tick, (n - 1) as nat);
        let ball = balls[n - 1];
        if !ball.live(tick) {
            rest
        } else if rest.contains_key(ball.target) {
            rest.insert(ball.target, min(rest[ball.target], ball.impact_time as int))
        } else {
            rest.insert(ball.target, ball.impact_time as int)
        }
    }
}

/// The cells of the live ones among the first `n` mines.
pub open spec fn mine_cells(mines: Seq<Mine>, tick: int, n: nat) -> Set<Point>
    decreases n,
{
    if n == 0 {
        Set::empty()
    } else {
        let rest = mine_cells(mines, tick, (n - 1) as nat);
        if mines[n - 1].live(tick) {
            rest.insert(mines[n - 1].point)
        } else {
            rest
        }
    }
}

/// The cells of the live ones among the first `n` barrels.
pub open spec fn barrel_cells(barrels: Seq<Barrel>, tick: int, n: nat) -> Set<Point>
    decreases n,
{
    if n == 0 {
        Set::empty()
    } else {
        let rest = barrel_cells(barrels, tick, (n - 1) as nat);
        if barrels[n - 1].live(tick) {
            rest.insert(barrels[n - 1].point)
        } else {
            rest
        }
    }
}

impl HazardField {
    /// The board cells under fire, each with the ticks until the impact.
    pub open spec fn fire(self) -> Map<Point, int> {
        Map::new(
            |p: Point| p.on_board() && self.under_fire@.contains_key(cell_key(p)),
            |p: Point| self.under_fire@[cell_key(p)] as int,
        )
    }

    /// The board cells that hold a mine.
    pub open spec fn mines(self) -> Set<Point> {
        Set::new(|p: Point| p.on_board() && self.mine_field@.contains(cell_key(p)))
    }

    /// The board cells that hold a barrel.
    pub open spec fn barrels(self) -> Set<Point> {
        Set::new(|p: Point| p.on_board() && self.barrels_field@.contains(cell_key(p)))
    }

    /// A field without hazards and barrels.
    pub fn new() -> (field: HazardField)
        ensures
            field.fire() == Map::<Point, int>::empty(),
            field.mines() == Set::<Point>::empty(),
            field.barrels() == Set::<Point>::empty(),
    {
        let field = HazardField { under_fire: HashMap::new(), barrels_field: HashSet::new(), mine_field: HashSet::new() };
        assert(field.fire() =~= Map::<Point, int>::empty());
        assert(field.mines() =~= Set::<Point>::empty());
        assert(field.barrels() =~= Set::<Point>::empty());
        field
    }

    /// The ticks until a cannonball hits the cell, if one is on its way.
    pub fn impact_at(&self, p: &Point) -> (ticks: Option<i32>)
        requires
            p.on_board(),
        ensures
            ticks is Some <==> self.fire().contains_key(*p),
            ticks is Some ==> ticks->0 == self.fire()[*p],
    {
        let key: u64 = key_of(p);
        match self.under_fire.get(&key) {
            Some(t) => Some(*t),
            None => None,
        }
    }

    /// Whether a cannonball is on its way to the cell.
    pub fn is_under_fire(&self, p: &Point) -> (hit: bool)
        requires
            p.on_board(),
        ensures
            hit == self.fire().contains_key(*p),
    {
        let key: u64 = key_of(p);
        self.under_fire.contains_key(&key)
    }

    /// Whether the cell holds a mine.
    pub fn has_mine(&self, p: &Point) -> (found: bool)
        requires
            p.on_board(),
        ensures
            found == self.mines().contains(*p),
    {
        let key: u64 = key_of(p);
        self.mine_field.contains(&key)
    }

    /// Whether the cell holds a barrel.
    pub fn has_barrel(&self, p: &Point) -> (found: bool)
        requires
            p.on_board(),
        ensures
            found == self.barrels().contains(*p),
    {
        let key: u64 = key_of(p);
        self.barrels_field.contains(&key)
    }

    /// The field of one tick: the targets of the live cannonballs with the
    /// earliest impact at each, and the cells of the live mines and barrels.
    pub fn build(balls: &Vec<Cannoball>, mines: &Vec<Mine>, barrels: &Vec<Barrel>, current_tick: i32) -> (field:
        HazardField)
        requires
            forall|i: int| 0 <= i < balls.len() ==> (#[trigger] balls[i]).target.on_board(),
            forall|i: int| 0 <= i < mines.len() ==> (#[trigger] mines[i]).point.on_board(),
            forall|i: int| 0 <= i < barrels.len() ==> (#[trigger] barrels[i]).point.on_board(),
        ensures
            field.fire() == fire_map(balls@, current_tick as int, balls.len() as nat),
            field.mines() == mine_cells(mines@, current_tick as int, mines.len() as nat),
            field.barrels() == barrel_cells(barrels@, current_tick as int, barrels.len() as nat),
    {
        let mut field = HazardField::new();
        let mut i: usize = 0;
        while i < balls.len()
            invariant
                i <= balls.len(),
                forall|k: int| 0 <= k < balls.len() ==> (#[trigger] balls[k]).target.on_board(),
                field.fire() == fire_map(balls@, current_tick as int, i as nat),
                field.mines() == Set::<Point>::empty(),
                field.barrels() == Set::<Point>::empty(),
            decreases balls.len() - i,
        {
            let ball: Cannoball = balls[i];
            if ball.is_alive(current_tick) {
                let ghost before = field;
                let key: u64 = key_of(&ball.target);
                let ticks: i32 = match field.under_fire.get(&key) {
                    Some(t) => if *t < ball.impact_time {
                        *t
                    } else {
                        ball.impact_time
                    },
                    None => ball.impact_time,
                };
                field.under_fire.insert(key, ticks);
                proof {
                    lemma_key_injective();
                    let rest = fire_map(balls@, current_tick as int, i as nat);
                    assert(field.fire() =~= rest.insert(ball.target, ticks as int));
                }
            }
            i = i + 1;
        }
        let mut j: usize = 0;
        while j < mines.len()
            invariant
                j <= mines.len(),
                forall|k: int| 0 <= k < mines.len() ==> (#[trigger] mines[k]).point.on_board(),
                field.fire() == fire_map(balls@, current_tick as int, balls.len() as nat),
                field.mines() == mine_cells(mines@, current_tick as int, j as nat),
                field.barrels() == Set::<Point>::empty(),
            decreases mines.len() - j,
        {
            let mine: Mine = mines[j];
            if mine.is_alive(current_tick) {
                let ghost before = field;
                let key: u64 = key_of(&mine.point);
                field.mine_field.insert(key);
                proof {
                    lemma_key_injective();
                    assert(field.fire() =~= before.fire());
                    assert(field.barrels() =~= before.barrels());
                    assert(field.mines() =~= before.mines().insert(mine.point));
                }
            }
            j = j + 1;
        }
        let mut k: usize = 0;
        while k < barrels.len()
            invariant
                k <= barrels.len(),
                forall|m: int| 0 <= m < barrels.len() ==> (#[trigger] barrels[m]).point.on_board(),
                field.fire() == fire_map(balls@, current_tick as int, balls.len() as nat),
                field.mines() == mine_cells(mines@, current_tick as int, mines.len() as nat),
                field.barrels() == barrel_cells(barrels@, current_tick as int, k as nat),
            decreases barrels.len() - k,
        {
            let barrel: Barrel = barrels[k];
            if barrel.is_alive(current_tick) {
                let ghost before = field;
                let key: u64 = key_of(&barrel.point);
                field.barrels_field.insert(key);
                proof {
                    lemma_key_injective();
                    assert(field.fire() =~= before.fire());
                    assert(field.mines() =~= before.mines());
                    assert(field.barrels() =~= before.barrels().insert(barrel.point));
                }
            }
            k = k + 1;
        }
        field
    }
}

/// The mines with the live ones marked as under fire exactly where `fire`
/// holds their cell.
pub open spec fn marked_mines(mines: Seq<Mine>, tick: int, fire: Map<Point, int>) -> Seq<Mine> {
    Seq::new(
        mines.len(),
        |i: int|
            if mines[i].live(tick) {
                Mine { under_fire: fire.contains_key(mines[i].point), ..mines[i] }
            } else {
                mines[i]
            },
    )
}

impl GameView {
    /// The world with the hazard field of its tick: the field is derived
    /// from the live cannonballs, mines and barrels, and every live mine is
    /// marked as under fire exactly where a cannonball is on its way to it.
    pub open spec fn rebuilt(self) -> GameView {
        let fire = fire_map(self.cannonballs, self.current_tick, self.cannonballs.len());
        GameView {
            under_fire: fire,
            mine_field: mine_cells(self.mines, self.current_tick, self.mines.len()),
            barrels_field: barrel_cells(self.barrels, self.current_tick, self.barrels.len()),
            mines: marked_mines(self.mines, self.current_tick, fire),
            ..self
        }
    }
}

impl Game {
    /// Builds the hazard field of the current tick anew and marks the live
    /// mines that are under fire.
    pub fn calc_under_fire(&mut self)
        requires
            old(self).wf(),
        ensures
            final(self)@ == old(self)@.rebuilt(),
            final(self).wf(),
    {
        self.field = HazardField::build(&self.cannonballs, &self.mines, &self.barrels, self.current_tick);
        let ghost marked = marked_mines(old(self)@.mines, old(self)@.current_tick, self.field.fire());
        let ghost field = self.field;
        let mut i: usize = 0;
        while i < self.mines.len()
            invariant
                i <= self.mines.len(),
                self.mines.len() == old(self).mines.len(),
                self.field == field,
                self.current_tick == old(self).current_tick,
                self.my_ships == old(self).my_ships,
                self.enemy_ships == old(self).enemy_ships,
                self.barrels == old(self).barrels,
                self.cannonballs == old(self).cannonballs,
                old(self).wf(),
                marked == marked_mines(old(self)@.mines, old(self)@.current_tick, field.fire()),
                forall|k: int| 0 <= k < i ==> self.mines[k] == marked[k],
                forall|k: int| i <= k < self.mines.len() ==> self.mines[k] == old(self).mines[k],
            decreases self.mines.len() - i,
        {
            let mut mine: Mine = self.mines[i];
            if mine.is_alive(self.current_tick) {
                if self.field.is_under_fire(&mine.point) {
                    mine.set_under_fire();
                } else {
                    mine.clear_under_fire();
                }
                self.mines.set(i, mine);
            }
            i = i + 1;
        }
        assert(self.mines@ =~= marked);
    }
}

/// The key of a board cell.
fn key_of(p: &Point) -> (key: u64)
    requires
        p.on_board(),
    ensures
        key == cell_key(*p),
{
    (p.y as u64) * WIDTH + (p.x as u64)
}

/// Two board cells with the same key are the same cell.
pub proof fn lemma_key_injective()
    ensures
        forall|p: Point, q: Point|
            p.on_board() && q.on_board() && #[trigger] cell_key(p) == #[trigger] cell_key(q) ==> p == q,
{
}

} // verus!
