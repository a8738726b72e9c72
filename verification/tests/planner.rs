use hexfleet::action::Action;
use hexfleet::game::Game;
use hexfleet::geometry::Point;
use hexfleet::snapshot::{EntityKind, EntityRecord};

fn record(entity_id: i32, kind: EntityKind, x: i32, y: i32, args: [i32; 4]) -> EntityRecord {
    EntityRecord { entity_id, kind, x, y, arg_1: args[0], arg_2: args[1], arg_3: args[2], arg_4: args[3] }
}

fn own(entity_id: i32, x: i32, y: i32, rotation: i32, speed: i32) -> EntityRecord {
    record(entity_id, EntityKind::Ship, x, y, [rotation, speed, 100, 1])
}

fn enemy(entity_id: i32, x: i32, y: i32, rotation: i32, speed: i32) -> EntityRecord {
    record(entity_id, EntityKind::Ship, x, y, [rotation, speed, 100, 0])
}

fn barrel(entity_id: i32, x: i32, y: i32) -> EntityRecord {
    record(entity_id, EntityKind::Barrel, x, y, [10, 0, 0, 0])
}

fn mine(entity_id: i32, x: i32, y: i32) -> EntityRecord {
    record(entity_id, EntityKind::Mine, x, y, [0, 0, 0, 0])
}

fn ball(entity_id: i32, x: i32, y: i32, impact: i32) -> EntityRecord {
    record(entity_id, EntityKind::Cannonball, x, y, [0, impact, 0, 0])
}

fn world(records: Vec<EntityRecord>) -> Game {
    let mut game = Game::new();
    assert!(game.absorb(&records).is_ok());
    game.calc_under_fire();
    game
}

const MOVES: [Action; 5] = [Action::WAIT, Action::PORT, Action::STARBOARD, Action::FASTER, Action::SLOWER];

#[test]
fn actions_change_speed_within_limits() {
    assert_eq!(Action::FASTER.speed_from(0), 1);
    assert_eq!(Action::FASTER.speed_from(1), 2);
    assert_eq!(Action::FASTER.speed_from(2), 2);
    assert_eq!(Action::SLOWER.speed_from(2), 1);
    assert_eq!(Action::SLOWER.speed_from(1), 0);
    assert_eq!(Action::SLOWER.speed_from(0), 0);
    assert_eq!(Action::WAIT.speed_from(1), 1);
    assert_eq!(Action::PORT.speed_from(2), 2);
    assert_eq!(Action::STARBOARD.speed_from(0), 0);
}

#[test]
fn actions_turn_by_one_facing() {
    assert_eq!(Action::PORT.rotation_from(0), 1);
    assert_eq!(Action::PORT.rotation_from(5), 0);
    assert_eq!(Action::STARBOARD.rotation_from(0), 5);
    assert_eq!(Action::STARBOARD.rotation_from(3), 2);
    assert_eq!(Action::WAIT.rotation_from(4), 4);
    assert_eq!(Action::FASTER.rotation_from(2), 2);
    assert_eq!(Action::SLOWER.rotation_from(1), 1);
}

#[test]
fn open_water_is_worth_nothing() {
    let game = world(Vec::new());
    for rotation in 0..6 {
        assert_eq!(game.check_position(&Point::new(7, 7), rotation, 1, 1), 0);
    }
}

#[test]
fn cannonball_under_the_centre_costs_fifty() {
    let quiet = world(Vec::new());
    let game = world(vec![ball(1, 7, 7, 1)]);
    assert_eq!(game.field.impact_at(&Point::new(7, 7)), Some(1));
    for rotation in 0..6 {
        let with = game.check_position(&Point::new(7, 7), rotation, 1, 1);
        let without = quiet.check_position(&Point::new(7, 7), rotation, 1, 1);
        assert_eq!(with, -50);
        assert_eq!(with - without, -50);
    }
}

#[test]
fn cannonball_under_bow_or_stern_costs_twenty_five() {
    let game = world(vec![ball(1, 7, 7, 1)]);
    assert_eq!(game.check_position(&Point::new(6, 7), 0, 1, 1), -25);
    assert_eq!(game.check_position(&Point::new(8, 7), 0, 1, 1), -25);
    assert_eq!(game.check_position(&Point::new(8, 7), 3, 1, 1), -25);
    assert_eq!(game.check_position(&Point::new(6, 7), 1, 1, 1), 0);
    assert_eq!(game.check_position(&Point::new(9, 7), 0, 1, 1), 0);
}

#[test]
fn barrels_and_mines_are_valued_under_the_whole_hull() {
    let game = world(vec![barrel(1, 6, 7), barrel(2, 7, 7), barrel(3, 8, 7)]);
    assert_eq!(game.check_position(&Point::new(7, 7), 0, 0, 1), 30);
    assert_eq!(game.check_position(&Point::new(7, 7), 3, 0, 1), 30);
    assert_eq!(game.check_position(&Point::new(7, 7), 1, 0, 1), 10);
    assert_eq!(game.check_position(&Point::new(8, 7), 0, 0, 1), 20);
    let mined = world(vec![mine(1, 6, 7), mine(2, 7, 7), mine(3, 8, 7)]);
    assert_eq!(mined.check_position(&Point::new(7, 7), 0, 0, 1), -75);
    assert_eq!(mined.check_position(&Point::new(9, 7), 0, 0, 1), -25);
}

#[test]
fn worst_position_counts_every_hazard() {
    let game = world(vec![
        mine(1, 6, 7),
        mine(2, 7, 7),
        mine(3, 8, 7),
        ball(4, 6, 7, 1),
        ball(5, 7, 7, 2),
        ball(6, 8, 7, 3),
        barrel(7, 7, 7),
    ]);
    assert_eq!(game.check_position(&Point::new(7, 7), 0, 0, 1), 10 - 75 - 100);
}

#[test]
fn bow_at_the_wall_counts_the_centre_again() {
    let game = world(vec![barrel(1, 22, 7)]);
    assert_eq!(game.check_position(&Point::new(22, 7), 0, 0, 1), 20);
    assert_eq!(game.check_position(&Point::new(22, 7), 3, 0, 1), 20);
}

#[test]
fn ship_ahead_is_a_collision() {
    let game = world(vec![own(0, 5, 5, 0, 1), own(1, 7, 5, 0, 0), enemy(2, 12, 12, 1, 0)]);
    assert!(game.check_collision(&Point::new(6, 5), 0, 0));
    assert!(game.check_collision(&Point::new(5, 5), 0, 0));
    assert!(game.check_collision(&Point::new(4, 5), 0, 0) == false);
    assert!(!game.check_collision(&Point::new(5, 5), 1, 0));
    // The enemy in (12, 12) faces north-east: its bow is over (12, 11) and
    // its stern over (11, 13).
    assert!(game.check_collision(&Point::new(11, 11), 0, 0));
    assert!(game.check_collision(&Point::new(11, 12), 0, 0));
    assert!(game.check_collision(&Point::new(10, 13), 0, 0));
    assert!(!game.check_collision(&Point::new(12, 13), 0, 0));
}

#[test]
fn ship_does_not_collide_with_itself() {
    let game = world(vec![own(0, 5, 5, 0, 1)]);
    assert!(!game.check_collision(&Point::new(4, 5), 0, 0));
    assert!(!game.check_collision(&Point::new(5, 5), 0, 0));
    assert!(game.check_collision(&Point::new(4, 5), 0, 9));
}

#[test]
fn unreported_ship_is_no_obstacle() {
    let mut game = Game::new();
    assert!(game.init(&vec![own(0, 5, 5, 0, 1), enemy(2, 7, 5, 0, 0)]).is_ok());
    assert!(game.check_collision(&Point::new(5, 5), 0, 0));
    assert!(game.play(&vec![own(0, 5, 5, 0, 1)]).is_ok());
    assert_eq!(game.enemy_ships.len(), 1);
    assert!(!game.check_collision(&Point::new(5, 5), 0, 0));
    assert!(!game.check_collision(&Point::new(6, 5), 0, 0));
}

#[test]
fn advance_stops_before_a_collision() {
    let game = world(vec![own(0, 5, 5, 0, 2), enemy(2, 9, 5, 0, 0)]);
    assert_eq!(game.advance(&Point::new(5, 5), 0, 0, 0), (Point::new(5, 5), false));
    assert_eq!(game.advance(&Point::new(5, 5), 0, 1, 0), (Point::new(6, 5), false));
    assert_eq!(game.advance(&Point::new(5, 5), 0, 2, 0), (Point::new(6, 5), true));
    assert_eq!(game.advance(&Point::new(5, 5), 0, -3, 0), (Point::new(5, 5), false));
    assert_eq!(game.advance(&Point::new(5, 5), 3, 2, 0), (Point::new(3, 5), false));
    assert_eq!(game.advance(&Point::new(21, 5), 0, 2, 0), (Point::new(22, 5), false));
}

#[test]
fn values_on_an_empty_board() {
    let game = world(vec![own(0, 5, 5, 0, 1)]);
    let dest = Point::new(10, 5);
    let from = Point::new(5, 5);
    assert_eq!(game.move_recur(&dest, &from, 0, 1, Action::WAIT, 1, 0), (1, false));
    assert_eq!(game.move_recur(&dest, &from, 0, 1, Action::PORT, 1, 0), (1, false));
    assert_eq!(game.move_recur(&dest, &from, 0, 1, Action::STARBOARD, 1, 0), (1, false));
    assert_eq!(game.move_recur(&dest, &from, 0, 1, Action::FASTER, 1, 0), (1, false));
    assert_eq!(game.move_recur(&dest, &from, 0, 1, Action::SLOWER, 1, 0), (0, false));
}

#[test]
fn turning_towards_the_destination_counts() {
    let game = world(vec![own(0, 6, 5, 1, 0)]);
    let dest = Point::new(10, 5);
    let from = Point::new(6, 5);
    assert_eq!(game.move_recur(&dest, &from, 1, 0, Action::STARBOARD, 3, 0), (1, false));
    assert_eq!(game.move_recur(&dest, &from, 1, 0, Action::PORT, 3, 0), (0, false));
    assert_eq!(game.move_recur(&dest, &from, 1, 0, Action::WAIT, 3, 0), (0, false));
    assert_eq!(game.move_recur(&dest, &from, 1, 0, Action::FASTER, 3, 0), (0, false));
    // At the ply before the last, half of the best that follows is added:
    // after speeding up, a turn to starboard is worth two.
    assert_eq!(game.look_ahead(&dest, &Point::new(7, 4), 1, 1, 3, 0), 1);
    assert_eq!(game.move_recur(&dest, &from, 1, 0, Action::STARBOARD, 2, 0), (1, false));
}

#[test]
fn half_of_the_future_is_rounded_towards_zero() {
    // A ship at rest in (7, 7), facing north-east, lies on the target of a
    // cannonball. Whatever it does at the last ply, it stays there or gets
    // its stern off last: the best move is to speed up, which leaves only
    // the stern under fire.
    let game = world(vec![own(0, 7, 7, 1, 0), ball(1, 7, 7, 1)]);
    let dest = Point::new(12, 7);
    let from = Point::new(7, 7);
    assert_eq!(game.move_recur(&dest, &from, 1, 0, Action::WAIT, 3, 0), (-50, false));
    assert_eq!(game.move_recur(&dest, &from, 1, 0, Action::STARBOARD, 3, 0), (-50 - 50 + 1, false));
    assert_eq!(game.move_recur(&dest, &from, 1, 0, Action::PORT, 3, 0), (-50 - 50, false));
    assert_eq!(game.move_recur(&dest, &from, 1, 0, Action::SLOWER, 3, 0), (-50, false));
    assert_eq!(game.move_recur(&dest, &from, 1, 0, Action::FASTER, 3, 0), (-25, false));
    assert_eq!(game.look_ahead(&dest, &from, 1, 0, 3, 0), -25);
    // -25 halves to -12, not to -13.
    assert_eq!(game.move_recur(&dest, &from, 1, 0, Action::WAIT, 2, 0), (-50 - 12, false));
}

#[test]
fn planner_prefers_closing_the_distance() {
    let game = world(vec![own(0, 5, 5, 0, 1)]);
    let action = game.move_to(&Point::new(10, 5), &Point::new(5, 5), 0, 1, 0);
    assert_eq!(action, Action::FASTER);
    assert!(action == Action::FASTER || action == Action::WAIT);
}

#[test]
fn planner_does_not_speed_up_at_full_speed() {
    let game = world(vec![own(0, 5, 5, 0, 2)]);
    let dest = Point::new(10, 5);
    let from = Point::new(5, 5);
    assert_eq!(
        game.move_recur(&dest, &from, 0, 2, Action::FASTER, 1, 0),
        game.move_recur(&dest, &from, 0, 2, Action::WAIT, 1, 0)
    );
    let action = game.move_to(&dest, &from, 0, 2, 0);
    assert_ne!(action, Action::FASTER);
    // Two plies after a turn the ship can come nearer and turn back towards
    // the destination at once, which makes a turn worth two; of the two
    // turns the later one in the order of the moves is chosen.
    assert_eq!(game.move_recur(&dest, &from, 0, 2, Action::WAIT, 1, 0), (1, false));
    assert_eq!(game.move_recur(&dest, &from, 0, 2, Action::PORT, 1, 0), (2, false));
    assert_eq!(game.move_recur(&dest, &from, 0, 2, Action::STARBOARD, 1, 0), (2, false));
    assert_eq!(game.move_recur(&dest, &from, 0, 2, Action::SLOWER, 1, 0), (1, false));
    assert_eq!(action, Action::STARBOARD);
}

#[test]
fn planner_does_not_slow_down_at_rest() {
    let game = world(vec![own(0, 5, 5, 0, 0)]);
    let dest = Point::new(10, 5);
    let from = Point::new(5, 5);
    assert_eq!(
        game.move_recur(&dest, &from, 0, 0, Action::SLOWER, 1, 0),
        game.move_recur(&dest, &from, 0, 0, Action::WAIT, 1, 0)
    );
    assert_eq!(game.move_to(&dest, &from, 0, 0, 0), Action::FASTER);
}

#[test]
fn planner_avoids_a_collision() {
    let game = world(vec![own(0, 5, 5, 0, 1), own(1, 7, 5, 0, 0)]);
    let dest = Point::new(10, 5);
    let from = Point::new(5, 5);
    assert_eq!(game.move_recur(&dest, &from, 0, 1, Action::WAIT, 1, 0), (0, true));
    assert_eq!(game.move_recur(&dest, &from, 0, 1, Action::PORT, 1, 0), (0, true));
    assert_eq!(game.move_recur(&dest, &from, 0, 1, Action::STARBOARD, 1, 0), (0, true));
    assert_eq!(game.move_recur(&dest, &from, 0, 1, Action::FASTER, 1, 0), (0, true));
    assert!(!game.move_recur(&dest, &from, 0, 1, Action::SLOWER, 1, 0).1);
    assert_eq!(game.move_to(&dest, &from, 0, 1, 0), Action::SLOWER);
}

#[test]
fn planner_passes_over_a_better_move_that_collides() {
    // Holding would end on a barrel but runs into the ship ahead; only
    // slowing down is free of a collision.
    let game = world(vec![own(0, 5, 5, 0, 1), own(1, 7, 5, 0, 0), barrel(2, 5, 5), mine(3, 5, 6), mine(4, 6, 4)]);
    let dest = Point::new(10, 5);
    let from = Point::new(5, 5);
    let chosen = game.move_to(&dest, &from, 0, 1, 0);
    assert!(!game.move_recur(&dest, &from, 0, 1, chosen, 1, 0).1);
    assert_eq!(chosen, Action::SLOWER);
}

#[test]
fn planner_holds_when_every_move_collides() {
    let game = world(vec![own(0, 5, 5, 0, 2), own(1, 7, 5, 0, 0)]);
    let dest = Point::new(10, 5);
    let from = Point::new(5, 5);
    for action in MOVES {
        assert!(game.move_recur(&dest, &from, 0, 2, action, 1, 0).1);
    }
    assert_eq!(game.move_to(&dest, &from, 0, 2, 0), Action::WAIT);
}

#[test]
fn planner_never_chooses_a_collision_when_it_can_be_avoided() {
    let game = world(vec![
        own(0, 5, 5, 0, 1),
        own(1, 7, 5, 0, 0),
        enemy(2, 5, 7, 1, 1),
        enemy(3, 3, 4, 5, 2),
        mine(4, 6, 6),
        barrel(5, 4, 4),
    ]);
    let dest = Point::new(12, 9);
    for x in 2..9 {
        for y in 2..9 {
            for rotation in 0..6 {
                for speed in 0..3 {
                    let from = Point::new(x, y);
                    let chosen = game.move_to(&dest, &from, rotation, speed, 0);
                    let free = MOVES.iter().any(|a| !game.move_recur(&dest, &from, rotation, speed, *a, 1, 0).1);
                    if free {
                        assert!(!game.move_recur(&dest, &from, rotation, speed, chosen, 1, 0).1);
                    } else {
                        assert_eq!(chosen, Action::WAIT);
                    }
                }
            }
        }
    }
}

#[test]
fn values_stay_within_their_bounds() {
    let game = world(vec![
        own(0, 5, 5, 0, 1),
        mine(1, 6, 5),
        mine(2, 7, 5),
        mine(3, 5, 5),
        ball(4, 6, 5, 1),
        ball(5, 5, 5, 1),
        ball(6, 7, 5, 1),
        barrel(7, 6, 4),
    ]);
    let dest = Point::new(10, 5);
    for rotation in 0..6 {
        for speed in 0..3 {
            for action in MOVES {
                let (value, _) = game.move_recur(&dest, &Point::new(5, 5), rotation, speed, action, 1, 0);
                assert!(-700 <= value && value <= 124);
            }
        }
    }
}
