//! The move planner: a lookahead of three plies over the five moves of a
//! ship.
//!
//! A move is simulated cell by cell. It collides where the cell ahead of the
//! ship's bow lies on the hull of another live ship. The cell and facing that
//! a move ends in are valued by what lies under the ship there, by whether
//! the move brought the ship closer to its destination, and by half of the
//! best value that any move reaches from there.

use vstd::prelude::*;
use crate::action::Action;
use crate::bearing::Heading;
use crate::entity::Ship;
use crate::game::{Game, GameView};
use crate::geometry::{Point, is_rotation, opposite};

verus! {

/// Value of a barrel under the bow, the centre or the stern.
pub const BARREL_VALUE: i32 = 10;

/// Loss for a mine under the bow, the centre or the stern.
pub const MINE_LOSS: i32 = 25;

/// Loss for a cannonball on its way to the bow or the stern.
pub const FIRE_LOSS_END: i32 = 25;

/// Loss for a cannonball on its way to the centre.
pub const FIRE_LOSS_CENTER: i32 = 50;

/// Number of plies that the lookahead spans.
pub const MAX_DEPTH: i32 = 3;

/// No move is worth less than this.
pub const MIN_VALUE: i32 = -700;

/// No move is worth more than this.
pub const MAX_VALUE: i32 = 124;

/// Half of `v`, rounded towards zero.
pub open spec fn trunc_half(v: int) -> int {
    if v >= 0 {
        v / 2
    } else {
        -((-v) / 2)
    }
}

/// The greater of two integers.
pub open spec fn max(a: int, b: int) -> int {
    if a >= b {
        a
    } else {
        b
    }
}

/// Whether `cell` lies on the hull of `ship`: its centre, the cell ahead of
/// it or the cell behind it.
pub open spec fn hull_covers(ship: Ship, cell: Point) -> bool {
    ||| ship.point == cell
    ||| ship.point.spec_neighbour(ship.rotation as int) == cell
    ||| ship.point.spec_neighbour(opposite(ship.rotation as int)) == cell
}

/// Whether a move may be chosen at the given speed: a ship at full speed
/// cannot speed up, and one at rest cannot slow down.
pub open spec fn eligible(action: Action, speed: int) -> bool {
    if action is FASTER {
        speed < 2
    } else if action is SLOWER {
        speed > 0
    } else {
        action.is_move()
    }
}

/// What a move from `from` with the facing `rotation` to `to` with the facing
/// `turned` gains on the way to `dest`: one where `to` is nearer to `dest`,
/// and one where the ship points at `dest` better than before.
#[verifier::opaque]
pub open spec fn progress(dest: Point, from: Point, rotation: int, to: Point, turned: int) -> int {
    let nearer: int = if to.spec_distance(dest) < from.spec_distance(dest) {
        1
    } else {
        0
    };
    let straighter: int = if Heading::towards(to, dest, turned).spec_closer_than(
        Heading::towards(from, dest, rotation),
    ) {
        1
    } else {
        0
    };
    nearer + straighter
}

impl GameView {
    /// Whether the own ship at index `i` is alive, is not the ship `ship_id`
    /// and covers `cell`.
    pub open spec fn own_blocker(self, i: int, cell: Point, ship_id: int) -> bool {
        &&& 0 <= i < self.my_ships.len()
        &&& self.my_ships[i].live(self.current_tick)
        &&& self.my_ships[i].entity_id != ship_id
        &&& hull_covers(self.my_ships[i], cell)
    }

    /// Whether the enemy ship at index `i` is alive and covers `cell`.
    pub open spec fn enemy_blocker(self, i: int, cell: Point) -> bool {
        &&& 0 <= i < self.enemy_ships.len()
        &&& self.enemy_ships[i].live(self.current_tick)
        &&& hull_covers(self.enemy_ships[i], cell)
    }

    /// Whether `cell` lies on the hull of a live ship other than `ship_id`.
    pub open spec fn blocked(self, cell: Point, ship_id: int) -> bool {
        ||| exists|i: int| self.own_blocker(i, cell, ship_id)
        ||| exists|i: int| self.enemy_blocker(i, cell)
    }

    /// Whether the ship `ship_id`, in `point` with the facing `rotation`, runs
    /// its bow into another live ship.
    pub open spec fn collides(self, point: Point, rotation: int, ship_id: int) -> bool {
        self.blocked(point.spec_neighbour(rotation), ship_id)
    }

    /// The value of lying in `point` with the facing `rotation`: barrels
    /// count for the ship, mines and cannonballs against it, under the stern,
    /// the centre and the bow.
    #[verifier::opaque]
    pub open spec fn position_value(self, point: Point, rotation: int) -> int {
        let nose = point.spec_neighbour(rotation);
        let stern = point.spec_neighbour(opposite(rotation));
        (if self.barrels_field.contains(stern) { BARREL_VALUE as int } else { 0 })
            + (if self.barrels_field.contains(point) { BARREL_VALUE as int } else { 0 })
            + (if self.barrels_field.contains(nose) { BARREL_VALUE as int } else { 0 })
            - (if self.mine_field.contains(stern) { MINE_LOSS as int } else { 0 })
            - (if self.mine_field.contains(point) { MINE_LOSS as int } else { 0 })
            - (if self.mine_field.contains(nose) { MINE_LOSS as int } else { 0 })
            - (if self.under_fire.contains_key(stern) { FIRE_LOSS_END as int } else { 0 })
            - (if self.under_fire.contains_key(point) { FIRE_LOSS_CENTER as int } else { 0 })
            - (if self.under_fire.contains_key(nose) { FIRE_LOSS_END as int } else { 0 })
    }

    /// Where a ship comes to lie that sets out from `point` for `steps` cells
    /// in the facing `rotation`, and whether a collision stopped it. The ship
    /// stops in the last cell from which its bow ran into nobody. A step that
    /// the edge of the board stops is a step in place and no collision.
    pub open spec fn advance(self, point: Point, rotation: int, steps: int, ship_id: int) -> (Point, bool)
        decreases steps,
    {
        if steps <= 0 {
            (point, false)
        } else {
            let next = point.spec_neighbour(rotation);
            if self.collides(next, rotation, ship_id) {
                (point, true)
            } else {
                self.advance(next, rotation, steps - 1, ship_id)
            }
        }
    }

    /// The best value that any of the five moves has for the ship at the ply
    /// `depth`.
    #[verifier::opaque]
    pub open spec fn lookahead(
        self,
        dest: Point,
        point: Point,
        rotation: int,
        speed: int,
        depth: int,
        ship_id: int,
    ) -> int
        decreases MAX_DEPTH - depth, 2int,
    {
        if depth > MAX_DEPTH {
            0
        } else {
            max(
                max(
                    max(
                        max(
                            self.evaluate(dest, point, rotation, speed, Action::WAIT, depth, ship_id).0,
                            self.evaluate(dest, point, rotation, speed, Action::PORT, depth, ship_id).0,
                        ),
                        self.evaluate(dest, point, rotation, speed, Action::STARBOARD, depth, ship_id).0,
                    ),
                    self.evaluate(dest, point, rotation, speed, Action::FASTER, depth, ship_id).0,
                ),
                self.evaluate(dest, point, rotation, speed, Action::SLOWER, depth, ship_id).0,
            )
        }
    }

    /// The value of `action` for the ship `ship_id` in `point` with the given
    /// facing and speed, bound for `dest`, where `later` is what the plies
    /// that follow are worth; and whether the action ends in a collision, in
    /// which case the value is that of the cell where the ship was stopped.
    ///
    /// A move that ends without a collision is worth the value of the cell
    /// that it ends in, taken before and, where the ship turns, also after
    /// the turn; one more where it ends nearer to `dest` and one more where
    /// it points at `dest` better than before; and `later`.
    pub open spec fn ply(
        self,
        dest: Point,
        point: Point,
        rotation: int,
        speed: int,
        action: Action,
        ship_id: int,
        later: int,
    ) -> (int, bool) {
        let turned = action.rotation_after(rotation);
        let (cell, stopped) = self.advance(point, rotation, action.speed_after(speed), ship_id);
        let ahead = self.position_value(cell, rotation);
        if stopped {
            (ahead, true)
        } else if turned != rotation && self.collides(cell, turned, ship_id) {
            (ahead, true)
        } else {
            let here = if turned != rotation {
                ahead + self.position_value(cell, turned)
            } else {
                ahead
            };
            (here + progress(dest, point, rotation, cell, turned) + later, false)
        }
    }

    /// What the plies that follow `action` at the ply `depth` are worth:
    /// above the last ply, half of the best value that any move has at the
    /// next ply from where `action` ends; at the last ply, nothing.
    #[verifier::opaque]
    pub open spec fn future(
        self,
        dest: Point,
        point: Point,
        rotation: int,
        speed: int,
        action: Action,
        depth: int,
        ship_id: int,
    ) -> int
        decreases MAX_DEPTH - depth, 0int,
    {
        if depth < MAX_DEPTH {
            trunc_half(
                self.lookahead(
                    dest,
                    self.advance(point, rotation, action.speed_after(speed), ship_id).0,
                    action.rotation_after(rotation),
                    action.speed_after(speed),
                    depth + 1,
                    ship_id,
                ),
            )
        } else {
            0
        }
    }

    /// The value of `action` for the ship `ship_id` in `point` with the given
    /// facing and speed, bound for `dest`, at the ply `depth`; and whether
    /// the action ends in a collision.
    #[verifier::opaque]
    pub open spec fn evaluate(
        self,
        dest: Point,
        point: Point,
        rotation: int,
        speed: int,
        action: Action,
        depth: int,
        ship_id: int,
    ) -> (int, bool)
        decreases MAX_DEPTH - depth, 1int,
    {
        self.ply(
            dest,
            point,
            rotation,
            speed,
            action,
            ship_id,
            self.future(dest, point, rotation, speed, action, depth, ship_id),
        )
    }

    /// The selection after `action` was held against the best move so far:
    /// a move that may be chosen, does not collide and is worth no less than
    /// the best so far takes its place.
    pub open spec fn consider(
        self,
        best: Option<(int, Action)>,
        action: Action,
        dest: Point,
        point: Point,
        rotation: int,
        speed: int,
        ship_id: int,
    ) -> Option<(int, Action)> {
        let (value, stopped) = self.evaluate(dest, point, rotation, speed, action, 1, ship_id);
        if !stopped && eligible(action, speed) && (best is None || value >= (best->0).0) {
            Some((value, action))
        } else {
            best
        }
    }

    /// The best move, with its value, among those that may be chosen and do
    /// not collide, if there is one. Of moves of equal value the one that is
    /// considered last wins; they are considered in the order hold, port,
    /// starboard, faster, slower.
    pub open spec fn selection(self, dest: Point, point: Point, rotation: int, speed: int, ship_id: int) -> Option<
        (int, Action),
    > {
        let s0 = self.consider(None, Action::WAIT, dest, point, rotation, speed, ship_id);
        let s1 = self.consider(s0, Action::PORT, dest, point, rotation, speed, ship_id);
        let s2 = self.consider(s1, Action::STARBOARD, dest, point, rotation, speed, ship_id);
        let s3 = self.consider(s2, Action::FASTER, dest, point, rotation, speed, ship_id);
        self.consider(s3, Action::SLOWER, dest, point, rotation, speed, ship_id)
    }

    /// The move that the planner makes: the selected one, or holding where
    /// every move collides.
    pub open spec fn choice(self, dest: Point, point: Point, rotation: int, speed: int, ship_id: int) -> Action {
        match self.selection(dest, point, rotation, speed, ship_id) {
            Some((_, action)) => action,
            None => Action::WAIT,
        }
    }
}

/// Whether `cell` lies on the hull of `ship`.
fn covers(ship: &Ship, cell: &Point) -> (hit: bool)
    requires
        ship.wf(),
    ensures
        hit == hull_covers(*ship, *cell),
{
    let nose: Point = ship.point.get_neighbour(ship.rotation);
    let stern: Point = ship.point.get_neighbour((ship.rotation + 3) % 6);
    ship.point == *cell || nose == *cell || stern == *cell
}

impl Game {
    /// The value of lying in `point` with the facing `rotation`. Speed and
    /// ply have no part in it.
    #[allow(unused_variables)]
    pub fn check_position(&self, point: &Point, rotation: i32, speed: i32, depth: i32) -> (value: i32)
        requires
            point.on_board(),
            is_rotation(rotation as int),
        ensures
            value == self@.position_value(*point, rotation as int),
            -(3 * MINE_LOSS + 2 * FIRE_LOSS_END + FIRE_LOSS_CENTER) <= value <= 3 * BARREL_VALUE,
    {
        reveal(GameView::position_value);
        let nose: Point = point.get_neighbour(rotation);
        let stern: Point = point.get_neighbour((rotation + 3) % 6);
        let mut value: i32 = 0;
        if self.field.has_barrel(&stern) {
            value = value + BARREL_VALUE;
        }
        if self.field.has_barrel(point) {
            value = value + BARREL_VALUE;
        }
        if self.field.has_barrel(&nose) {
            value = value + BARREL_VALUE;
        }
        if self.field.has_mine(&stern) {
            value = value - MINE_LOSS;
        }
        if self.field.has_mine(point) {
            value = value - MINE_LOSS;
        }
        if self.field.has_mine(&nose) {
            value = value - MINE_LOSS;
        }
        if self.field.is_under_fire(&stern) {
            value = value - FIRE_LOSS_END;
        }
        if self.field.is_under_fire(point) {
            value = value - FIRE_LOSS_CENTER;
        }
        if self.field.is_under_fire(&nose) {
            value = value - FIRE_LOSS_END;
        }
        value
    }

    /// Whether the ship `ship_id`, in `point` with the facing `rotation`, runs
    /// its bow into another live ship.
    pub fn check_collision(&self, point: &Point, rotation: i32, ship_id: i32) -> (hit: bool)
        requires
            self.wf(),
            point.on_board(),
            is_rotation(rotation as int),
        ensures
            hit == self@.collides(*point, rotation as int, ship_id as int),
    {
        let nose: Point = point.get_neighbour(rotation);
        let mut i: usize = 0;
        while i < self.my_ships.len()
            invariant
                self.wf(),
                i <= self.my_ships.len(),
                nose == point.spec_neighbour(rotation as int),
                forall|k: int| 0 <= k < i ==> !self@.own_blocker(k, nose, ship_id as int),
            decreases self.my_ships.len() - i,
        {
            let ship: &Ship = &self.my_ships[i];
            if ship.is_alive(self.current_tick) && ship.entity_id != ship_id && covers(ship, &nose) {
                assert(self@.own_blocker(i as int, nose, ship_id as int));
                return true;
            }
            i = i + 1;
        }
        let mut j: usize = 0;
        while j < self.enemy_ships.len()
            invariant
                self.wf(),
                j <= self.enemy_ships.len(),
                nose == point.spec_neighbour(rotation as int),
                forall|k: int| !self@.own_blocker(k, nose, ship_id as int),
                forall|k: int| 0 <= k < j ==> !self@.enemy_blocker(k, nose),
            decreases self.enemy_ships.len() - j,
        {
            let ship: &Ship = &self.enemy_ships[j];
            if ship.is_alive(self.current_tick) && covers(ship, &nose) {
                assert(self@.enemy_blocker(j as int, nose));
                return true;
            }
            j = j + 1;
        }
        false
    }

    /// Where the ship `ship_id` comes to lie that sets out from `point` for
    /// `steps` cells in the facing `rotation`, and whether a collision
    /// stopped it. A step that the edge of the board stops is a step in place
    /// and no collision.
    pub fn advance(&self, point: &Point, rotation: i32, steps: i32, ship_id: i32) -> (result: (Point, bool))
        requires
            self.wf(),
            point.on_board(),
            is_rotation(rotation as int),
        ensures
            result == self@.advance(*point, rotation as int, steps as int, ship_id as int),
            result.0.on_board(),
    {
        let mut t_point: Point = *point;
        let mut step: i32 = 0;
        while step < steps
            invariant
                self.wf(),
                t_point.on_board(),
                is_rotation(rotation as int),
                0 <= step,
                self@.advance(*point, rotation as int, steps as int, ship_id as int) == self@.advance(
                    t_point,
                    rotation as int,
                    steps - step,
                    ship_id as int,
                ),
            decreases steps - step,
        {
            let t: Point = t_point.get_neighbour(rotation);
            if self.check_collision(&t, rotation, ship_id) {
                return (t_point, true);
            }
            t_point = t;
            step = step + 1;
        }
        (t_point, false)
    }

    /// The best value that any of the five moves has at the ply `depth`.
    pub fn look_ahead(&self, dest: &Point, point: &Point, rotation: i32, speed: i32, depth: i32, ship_id: i32) -> (best:
        i32)
        requires
            self.wf(),
            dest.on_board(),
            point.on_board(),
            is_rotation(rotation as int),
            depth <= MAX_DEPTH,
        ensures
            best == self@.lookahead(*dest, *point, rotation as int, speed as int, depth as int, ship_id as int),
            MIN_VALUE <= best <= MAX_VALUE,
        decreases MAX_DEPTH - depth, 2int,
    {
        proof {
            lemma_lookahead_unfolds(
                self@,
                *dest,
                *point,
                rotation as int,
                speed as int,
                depth as int,
                ship_id as int,
            );
        }
        let mut best: i32 = self.move_recur(dest, point, rotation, speed, Action::WAIT, depth, ship_id).0;
        let port: i32 = self.move_recur(dest, point, rotation, speed, Action::PORT, depth, ship_id).0;
        if port > best {
            best = port;
        }
        let starboard: i32 = self.move_recur(dest, point, rotation, speed, Action::STARBOARD, depth, ship_id).0;
        if starboard > best {
            best = starboard;
        }
        let faster: i32 = self.move_recur(dest, point, rotation, speed, Action::FASTER, depth, ship_id).0;
        if faster > best {
            best = faster;
        }
        let slower: i32 = self.move_recur(dest, point, rotation, speed, Action::SLOWER, depth, ship_id).0;
        if slower > best {
            best = slower;
        }
        best
    }

    /// The value of `action` at the ply `depth`, and whether it ends in a
    /// collision.
    pub fn move_recur(
        &self,
        dest: &Point,
        point: &Point,
        rotation: i32,
        speed: i32,
        action: Action,
        depth: i32,
        ship_id: i32,
    ) -> (result: (i32, bool))
        requires
            self.wf(),
            dest.on_board(),
            point.on_board(),
            is_rotation(rotation as int),
            action.is_move(),
        ensures
            (result.0 as int, result.1) == self@.evaluate(
                *dest,
                *point,
                rotation as int,
                speed as int,
                action,
                depth as int,
                ship_id as int,
            ),
            MIN_VALUE <= result.0 <= MAX_VALUE,
        decreases MAX_DEPTH - depth, 1int,
    {
        proof {
            lemma_evaluate_unfolds(
                self@,
                *dest,
                *point,
                rotation as int,
                speed as int,
                action,
                depth as int,
                ship_id as int,
            );
        }
        let moved_speed: i32 = action.speed_from(speed);
        let turned: i32 = action.rotation_from(rotation);
        let (t_point, collision): (Point, bool) = self.advance(point, rotation, moved_speed, ship_id);
        let mut value: i32 = self.check_position(&t_point, rotation, moved_speed, depth);
        if collision {
            return (value, true);
        }
        if turned != rotation {
            if self.check_collision(&t_point, turned, ship_id) {
                return (value, true);
            }
            value = value + self.check_position(&t_point, turned, moved_speed, depth);
        }
        value = value + gain(dest, point, rotation, &t_point, turned);
        if depth < MAX_DEPTH {
            let best: i32 = self.look_ahead(dest, &t_point, turned, moved_speed, depth + 1, ship_id);
            value = value + half(best);
        }
        (value, false)
    }

    /// The move for the ship `ship_id`, in `point` with the given facing and
    /// speed, on its way to `dest`: the best of those that may be chosen and
    /// do not collide, or holding where there is none.
    pub fn move_to(&self, dest: &Point, point: &Point, rotation: i32, speed: i32, ship_id: i32) -> (action: Action)
        requires
            self.wf(),
            dest.on_board(),
            point.on_board(),
            is_rotation(rotation as int),
        ensures
            action == self@.choice(*dest, *point, rotation as int, speed as int, ship_id as int),
            action.is_move(),
    {
        let mut result: Action = Action::WAIT;
        let mut found: bool = false;
        let mut value: i32 = 0;
        let hold: (i32, bool) = self.move_recur(dest, point, rotation, speed, Action::WAIT, 1, ship_id);
        if !hold.1 {
            value = hold.0;
            found = true;
        }
        let port: (i32, bool) = self.move_recur(dest, point, rotation, speed, Action::PORT, 1, ship_id);
        if !port.1 && (!found || port.0 >= value) {
            value = port.0;
            result = Action::PORT;
            found = true;
        }
        let starboard: (i32, bool) = self.move_recur(dest, point, rotation, speed, Action::STARBOARD, 1, ship_id);
        if !starboard.1 && (!found || starboard.0 >= value) {
            value = starboard.0;
            result = Action::STARBOARD;
            found = true;
        }
        let faster: (i32, bool) = self.move_recur(dest, point, rotation, speed, Action::FASTER, 1, ship_id);
        if !faster.1 && speed < 2 && (!found || faster.0 >= value) {
            value = faster.0;
            result = Action::FASTER;
            found = true;
        }
        let slower: (i32, bool) = self.move_recur(dest, point, rotation, speed, Action::SLOWER, 1, ship_id);
        if !slower.1 && speed > 0 && (!found || slower.0 >= value) {
            result = Action::SLOWER;
        }
        result
    }
}

/// The value of a move is that of its ply together with what follows.
pub proof fn lemma_evaluate_unfolds(
    world: GameView,
    dest: Point,
    point: Point,
    rotation: int,
    speed: int,
    action: Action,
    depth: int,
    ship_id: int,
)
    ensures
        world.evaluate(dest, point, rotation, speed, action, depth, ship_id) == world.ply(
            dest,
            point,
            rotation,
            speed,
            action,
            ship_id,
            world.future(dest, point, rotation, speed, action, depth, ship_id),
        ),
        world.future(dest, point, rotation, speed, action, depth, ship_id) == (if depth < MAX_DEPTH {
            trunc_half(
                world.lookahead(
                    dest,
                    world.advance(point, rotation, action.speed_after(speed), ship_id).0,
                    action.rotation_after(rotation),
                    action.speed_after(speed),
                    depth + 1,
                    ship_id,
                ),
            )
        } else {
            0
        }),
{
    reveal(GameView::evaluate);
    reveal(GameView::future);
    reveal(GameView::lookahead);
}

/// Up to the last ply, the best value of a ply is the greatest of the values
/// of the five moves.
pub proof fn lemma_lookahead_unfolds(
    world: GameView,
    dest: Point,
    point: Point,
    rotation: int,
    speed: int,
    depth: int,
    ship_id: int,
)
    requires
        depth <= MAX_DEPTH,
    ensures
        world.lookahead(dest, point, rotation, speed, depth, ship_id) == max(
            max(
                max(
                    max(
                        world.evaluate(dest, point, rotation, speed, Action::WAIT, depth, ship_id).0,
                        world.evaluate(dest, point, rotation, speed, Action::PORT, depth, ship_id).0,
                    ),
                    world.evaluate(dest, point, rotation, speed, Action::STARBOARD, depth, ship_id).0,
                ),
                world.evaluate(dest, point, rotation, speed, Action::FASTER, depth, ship_id).0,
            ),
            world.evaluate(dest, point, rotation, speed, Action::SLOWER, depth, ship_id).0,
        ),
{
    reveal(GameView::lookahead);
    reveal(GameView::evaluate);
    reveal(GameView::future);
}

/// Half of `v`, rounded towards zero.
fn half(v: i32) -> (h: i32)
    ensures
        h == trunc_half(v as int),
{
    v / 2
}

/// What a move gains on the way to `dest`.
fn gain(dest: &Point, from: &Point, rotation: i32, to: &Point, turned: i32) -> (won: i32)
    requires
        dest.on_board(),
        from.on_board(),
        to.on_board(),
        is_rotation(rotation as int),
        is_rotation(turned as int),
    ensures
        won == progress(*dest, *from, rotation as int, *to, turned as int),
        0 <= won <= 2,
{
    reveal(progress);
    let mut won: i32 = 0;
    if to.distance(dest) < from.distance(dest) {
        won = won + 1;
    }
    let before: Heading = from.heading(dest, rotation);
    let after: Heading = to.heading(dest, turned);
    if after.closer_than(&before) {
        won = won + 1;
    }
    won
}

} // verus!
