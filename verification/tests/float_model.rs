use hexfleet::action::Action;
use hexfleet::game::Game;
use hexfleet::geometry::Point;
use hexfleet::snapshot::{EntityKind, EntityRecord};

const MOVES: [Action; 5] = [Action::WAIT, Action::PORT, Action::STARBOARD, Action::FASTER, Action::SLOWER];

/// Angles that differ by less than this are taken for equal.
const ROUNDING: f64 = 1e-9;

fn record(entity_id: i32, kind: EntityKind, x: i32, y: i32, args: [i32; 4]) -> EntityRecord {
    EntityRecord { entity_id, kind, x, y, arg_1: args[0], arg_2: args[1], arg_3: args[2], arg_4: args[3] }
}

/// The bearing from one cell to another in units of sixty degrees, in [0, 6).
fn bearing(from: &Point, to: &Point) -> f64 {
    let dy = ((to.y - from.y) as f64) * f64::sqrt(3.0) / 2.0;
    let dx = (to.x - from.x) as f64 + (((from.y - to.y) & 1) as f64) * 0.5;
    let mut angle = -f64::atan2(dy, dx) * 3.0 / std::f64::consts::PI;
    if angle < 0.0 {
        angle += 6.0;
    } else if angle >= 6.0 {
        angle -= 6.0;
    }
    angle
}

/// The angle between a facing and the bearing to a cell, in [0, 3].
fn off_course(from: &Point, to: &Point, rotation: i32) -> f64 {
    let between = (rotation as f64 - bearing(from, to)).abs();
    f64::min(between, 6.0 - between)
}

/// The value of a move, with angles measured in floating point.
fn value(game: &Game, dest: &Point, point: &Point, rotation: i32, speed: i32, action: Action, depth: i32) -> (i32, bool) {
    let moved_speed = action.speed_from(speed);
    let turned = action.rotation_from(rotation);
    let (cell, stopped) = game.advance(point, rotation, moved_speed, 0);
    let mut value = game.check_position(&cell, rotation, moved_speed, depth);
    if stopped {
        return (value, true);
    }
    if turned != rotation {
        if game.check_collision(&cell, turned, 0) {
            return (value, true);
        }
        value += game.check_position(&cell, turned, moved_speed, depth);
    }
    if cell.distance(dest) < point.distance(dest) {
        value += 1;
    }
    if off_course(&cell, dest, turned) < off_course(point, dest, rotation) - ROUNDING {
        value += 1;
    }
    if depth < 3 {
        let mut best = i32::MIN;
        for next in MOVES {
            best = std::cmp::max(best, value_of(game, dest, &cell, turned, moved_speed, next, depth + 1));
        }
        value += best / 2;
    }
    (value, false)
}

fn value_of(game: &Game, dest: &Point, point: &Point, rotation: i32, speed: i32, action: Action, depth: i32) -> i32 {
    value(game, dest, point, rotation, speed, action, depth).0
}

#[test]
fn bearing_is_measured_in_facings() {
    let from = Point::new(5, 5);
    assert!((bearing(&from, &Point::new(10, 5)) - 0.0).abs() < ROUNDING);
    assert!((bearing(&from, &Point::new(1, 5)) - 3.0).abs() < ROUNDING);
    assert!((bearing(&Point::new(5, 4), &Point::new(5, 3)) - 1.0).abs() < ROUNDING);
    assert!((bearing(&Point::new(5, 4), &Point::new(5, 5)) - 5.0).abs() < ROUNDING);
}

#[test]
fn exact_headings_order_as_the_angles_do() {
    let dest = Point::new(11, 9);
    for x in 0..23 {
        for y in 0..21 {
            for rotation in 0..6 {
                let from = Point::new(x, y);
                let here = from.heading(&dest, rotation);
                for other in 0..6 {
                    let there = Point::new(7, 3).heading(&dest, other);
                    let a = off_course(&from, &dest, rotation);
                    let b = off_course(&Point::new(7, 3), &dest, other);
                    if a < b - ROUNDING {
                        assert!(here.closer_than(&there));
                    } else if a > b + ROUNDING {
                        assert!(there.closer_than(&here));
                    } else {
                        assert!(!here.closer_than(&there));
                        assert!(!there.closer_than(&here));
                    }
                }
            }
        }
    }
}

#[test]
fn planner_agrees_with_a_floating_point_model() {
    let mut game = Game::new();
    let records = vec![
        record(0, EntityKind::Ship, 5, 5, [0, 1, 100, 1]),
        record(1, EntityKind::Ship, 9, 7, [2, 1, 100, 1]),
        record(2, EntityKind::Ship, 12, 4, [4, 1, 100, 0]),
        record(3, EntityKind::Barrel, 8, 3, [10, 0, 0, 0]),
        record(4, EntityKind::Mine, 6, 8, [0, 0, 0, 0]),
        record(5, EntityKind::Cannonball, 10, 6, [0, 2, 0, 0]),
    ];
    assert!(game.absorb(&records).is_ok());
    game.calc_under_fire();
    for dest in [Point::new(10, 5), Point::new(2, 2), Point::new(20, 18), Point::new(8, 3)] {
        for x in (0..23).step_by(2) {
            for y in 0..21 {
                for rotation in 0..6 {
                    for speed in 0..3 {
                        for action in MOVES {
                            let from = Point::new(x, y);
                            assert_eq!(
                                game.move_recur(&dest, &from, rotation, speed, action, 1, 0),
                                value(&game, &dest, &from, rotation, speed, action, 1)
                            );
                        }
                    }
                }
            }
        }
    }
}
