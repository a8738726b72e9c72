use hexfleet::entity::{Barrel, Cannoball, Mine, Ship};
use hexfleet::game::Game;
use hexfleet::geometry::Point;
use hexfleet::snapshot::{EntityKind, EntityRecord, Sighting, SnapshotError};

fn record(entity_id: i32, kind: EntityKind, x: i32, y: i32, args: [i32; 4]) -> EntityRecord {
    EntityRecord { entity_id, kind, x, y, arg_1: args[0], arg_2: args[1], arg_3: args[2], arg_4: args[3] }
}

#[test]
fn own_and_enemy_ships_are_told_apart() {
    let own = Sighting::from_record(&record(3, EntityKind::Ship, 4, 5, [2, 1, 77, 1]));
    assert_eq!(own, Ok(Sighting::OwnShip(Ship::new(3, 4, 5, 2, 1, 77))));
    let enemy = Sighting::from_record(&record(3, EntityKind::Ship, 4, 5, [2, 1, 77, 0]));
    assert_eq!(enemy, Ok(Sighting::EnemyShip(Ship::new(3, 4, 5, 2, 1, 77))));
}

#[test]
fn barrel_mine_and_cannonball_are_taken() {
    let barrel = Sighting::from_record(&record(10, EntityKind::Barrel, 6, 7, [15, 0, 0, 0]));
    assert_eq!(barrel, Ok(Sighting::Barrel(Barrel::new(10, 6, 7, 15))));
    let mine = Sighting::from_record(&record(11, EntityKind::Mine, 8, 9, [0, 0, 0, 0]));
    assert_eq!(mine, Ok(Sighting::Mine(Mine::new(11, 8, 9))));
    let ball = Sighting::from_record(&record(12, EntityKind::Cannonball, 7, 7, [2, 3, 0, 0]));
    assert_eq!(ball, Ok(Sighting::Cannonball(Cannoball::new(12, 2, 3, 7, 7))));
}

#[test]
fn negative_identity_is_an_error() {
    let r = record(-1, EntityKind::Barrel, 6, 7, [15, 0, 0, 0]);
    assert_eq!(Sighting::from_record(&r), Err(SnapshotError::BadIdentity));
}

#[test]
fn cell_off_the_board_is_an_error() {
    for (x, y) in [(-1, 0), (23, 0), (0, -1), (0, 21), (100, 100)] {
        let r = record(1, EntityKind::Mine, x, y, [0, 0, 0, 0]);
        assert_eq!(Sighting::from_record(&r), Err(SnapshotError::OffBoard));
    }
    let edge = record(1, EntityKind::Mine, 22, 20, [0, 0, 0, 0]);
    assert!(Sighting::from_record(&edge).is_ok());
}

#[test]
fn facing_out_of_range_is_an_error() {
    let r = record(1, EntityKind::Ship, 5, 5, [6, 1, 50, 1]);
    assert_eq!(Sighting::from_record(&r), Err(SnapshotError::BadRotation));
    let s = record(1, EntityKind::Ship, 5, 5, [-1, 1, 50, 1]);
    assert_eq!(Sighting::from_record(&s), Err(SnapshotError::BadRotation));
}

#[test]
fn speed_out_of_range_is_an_error() {
    let r = record(1, EntityKind::Ship, 5, 5, [0, 3, 50, 1]);
    assert_eq!(Sighting::from_record(&r), Err(SnapshotError::BadSpeed));
    let s = record(1, EntityKind::Ship, 5, 5, [0, -1, 50, 0]);
    assert_eq!(Sighting::from_record(&s), Err(SnapshotError::BadSpeed));
}

#[test]
fn negative_impact_time_is_an_error() {
    let r = record(1, EntityKind::Cannonball, 5, 5, [0, -1, 0, 0]);
    assert_eq!(Sighting::from_record(&r), Err(SnapshotError::BadImpactTime));
}

#[test]
fn errors_come_in_a_fixed_order() {
    let r = record(-4, EntityKind::Ship, 50, 50, [9, 9, 0, 1]);
    assert_eq!(Sighting::from_record(&r), Err(SnapshotError::BadIdentity));
    let s = record(4, EntityKind::Ship, 50, 50, [9, 9, 0, 1]);
    assert_eq!(Sighting::from_record(&s), Err(SnapshotError::OffBoard));
    let t = record(4, EntityKind::Ship, 5, 5, [9, 9, 0, 1]);
    assert_eq!(Sighting::from_record(&t), Err(SnapshotError::BadRotation));
}

#[test]
fn first_snapshot_enters_entities_as_reported() {
    let mut game = Game::new();
    let records = vec![
        record(0, EntityKind::Ship, 5, 5, [0, 1, 100, 1]),
        record(1, EntityKind::Ship, 15, 15, [3, 2, 90, 0]),
        record(2, EntityKind::Barrel, 6, 7, [15, 0, 0, 0]),
        record(3, EntityKind::Mine, 8, 9, [0, 0, 0, 0]),
        record(4, EntityKind::Cannonball, 7, 7, [1, 3, 0, 0]),
    ];
    assert_eq!(game.absorb(&records), Ok(()));
    assert_eq!(game.current_tick, 0);
    assert_eq!(game.my_ships, vec![Ship::new(0, 5, 5, 0, 1, 100)]);
    assert_eq!(game.enemy_ships, vec![Ship::new(1, 15, 15, 3, 2, 90)]);
    assert_eq!(game.barrels, vec![Barrel::new(2, 6, 7, 15)]);
    assert_eq!(game.mines, vec![Mine::new(3, 8, 9)]);
    assert_eq!(game.cannonballs, vec![Cannoball::new(4, 1, 3, 7, 7)]);
}

#[test]
fn later_snapshot_refreshes_and_enters() {
    let mut game = Game::new();
    let first = vec![
        record(0, EntityKind::Ship, 5, 5, [0, 1, 100, 1]),
        record(4, EntityKind::Cannonball, 7, 7, [1, 3, 0, 0]),
        record(2, EntityKind::Barrel, 6, 7, [15, 0, 0, 0]),
    ];
    assert!(game.init(&first).is_ok());
    let second = vec![
        record(0, EntityKind::Ship, 6, 5, [1, 2, 99, 1]),
        record(4, EntityKind::Cannonball, 7, 7, [1, 2, 0, 0]),
        record(5, EntityKind::Cannonball, 9, 9, [1, 4, 0, 0]),
        record(6, EntityKind::Mine, 3, 3, [0, 0, 0, 0]),
    ];
    assert!(game.play(&second).is_ok());
    assert_eq!(game.current_tick, 1);
    assert_eq!(game.my_ships.len(), 1);
    assert_eq!(game.my_ships[0].point, Point::new(6, 5));
    assert_eq!(game.my_ships[0].rotation, 1);
    assert_eq!(game.my_ships[0].speed, 2);
    assert_eq!(game.my_ships[0].rum, 99);
    assert_eq!(game.my_ships[0].tick_accessed, 1);
    assert_eq!(game.cannonballs.len(), 2);
    assert_eq!(game.cannonballs[0].entity_id, 4);
    assert_eq!(game.cannonballs[0].impact_time, 2);
    assert_eq!(game.cannonballs[0].tick_accessed, 1);
    assert_eq!(game.cannonballs[1].entity_id, 5);
    assert_eq!(game.cannonballs[1].impact_time, 3);
    assert_eq!(game.cannonballs[1].tick_accessed, 1);
    assert_eq!(game.mines.len(), 1);
    assert_eq!(game.mines[0].tick_accessed, 1);
    assert_eq!(game.barrels, vec![Barrel::new(2, 6, 7, 15)]);
}

#[test]
fn entity_reported_twice_in_a_tick_is_an_error() {
    let mut game = Game::new();
    let records = vec![
        record(2, EntityKind::Barrel, 6, 7, [15, 0, 0, 0]),
        record(2, EntityKind::Barrel, 6, 7, [15, 0, 0, 0]),
    ];
    assert_eq!(game.init(&records), Err(SnapshotError::DuplicateIdentity));
    let mut other = Game::new();
    assert!(other.init(&vec![record(0, EntityKind::Ship, 5, 5, [0, 1, 100, 1])]).is_ok());
    let twice = vec![
        record(0, EntityKind::Ship, 6, 5, [0, 1, 100, 1]),
        record(0, EntityKind::Ship, 7, 5, [0, 1, 100, 1]),
    ];
    assert_eq!(other.play(&twice), Err(SnapshotError::DuplicateIdentity));
}

#[test]
fn same_identity_in_different_collections_is_no_duplicate() {
    let mut game = Game::new();
    let records = vec![
        record(2, EntityKind::Barrel, 6, 7, [15, 0, 0, 0]),
        record(2, EntityKind::Mine, 6, 9, [0, 0, 0, 0]),
        record(2, EntityKind::Ship, 1, 1, [0, 0, 100, 1]),
        record(2, EntityKind::Ship, 20, 18, [0, 0, 100, 0]),
        record(2, EntityKind::Cannonball, 9, 9, [2, 5, 0, 0]),
    ];
    assert!(game.init(&records).is_ok());
    assert_eq!(game.barrels.len(), 1);
    assert_eq!(game.mines.len(), 1);
    assert_eq!(game.my_ships.len(), 1);
    assert_eq!(game.enemy_ships.len(), 1);
    assert_eq!(game.cannonballs.len(), 1);
}

#[test]
fn bad_record_stops_the_snapshot() {
    let mut game = Game::new();
    let records = vec![
        record(2, EntityKind::Barrel, 6, 7, [15, 0, 0, 0]),
        record(3, EntityKind::Mine, 60, 9, [0, 0, 0, 0]),
        record(4, EntityKind::Barrel, 1, 1, [15, 0, 0, 0]),
    ];
    assert_eq!(game.absorb(&records), Err(SnapshotError::OffBoard));
    assert_eq!(game.barrels, vec![Barrel::new(2, 6, 7, 15)]);
    assert!(game.mines.is_empty());
}

#[test]
fn tick_counter_stops_at_its_limit() {
    let mut game = Game::new();
    game.current_tick = i32::MAX;
    assert_eq!(game.play(&Vec::new()), Err(SnapshotError::TickLimit));
    assert_eq!(game.current_tick, i32::MAX);
}

#[test]
fn init_forgets_what_was_known() {
    let mut game = Game::new();
    assert!(game.init(&vec![record(2, EntityKind::Barrel, 6, 7, [15, 0, 0, 0])]).is_ok());
    assert!(game.play(&Vec::new()).is_ok());
    assert_eq!(game.current_tick, 1);
    assert!(game.init(&vec![record(9, EntityKind::Mine, 1, 1, [0, 0, 0, 0])]).is_ok());
    assert_eq!(game.current_tick, 0);
    assert!(game.barrels.is_empty());
    assert_eq!(game.mines, vec![Mine::new(9, 1, 1)]);
}

#[test]
fn unreported_entity_keeps_its_record_and_resumes() {
    let mut game = Game::new();
    let barrel = record(2, EntityKind::Barrel, 6, 7, [15, 0, 0, 0]);
    assert!(game.init(&vec![barrel]).is_ok());
    assert!(game.barrels[0].is_alive(game.current_tick));
    assert!(game.play(&Vec::new()).is_ok());
    assert_eq!(game.barrels, vec![Barrel::new(2, 6, 7, 15)]);
    assert!(!game.barrels[0].is_alive(game.current_tick));
    assert!(game.play(&vec![barrel]).is_ok());
    assert_eq!(game.barrels.len(), 1);
    assert_eq!(game.barrels[0].tick_accessed, 2);
    assert!(game.barrels[0].is_alive(game.current_tick));
}
