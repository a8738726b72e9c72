use hexfleet::entity::{Barrel, Cannoball, Mine, Ship};
use hexfleet::game::Game;
use hexfleet::geometry::Point;
use hexfleet::parse::parse_record;
use hexfleet::validate::{all_distinct, barrels_valid, cannonballs_valid, is_on_board, mines_valid, ships_valid};

fn played() -> Game {
    let mut game = Game::new();
    let lines: [&[u8]; 5] = [
        b"0 SHIP 5 5 0 1 100 1",
        b"1 SHIP 15 15 3 2 90 0",
        b"2 BARREL 6 7 15 0 0 0",
        b"3 MINE 8 9 0 0 0 0",
        b"4 CANNONBALL 7 7 1 3 0 0",
    ];
    let records = lines.iter().map(|line| parse_record(line).unwrap()).collect();
    assert!(game.init(&records).is_ok());
    assert!(game.play(&records).is_ok());
    game
}

#[test]
fn worlds_of_the_library_are_valid() {
    assert!(Game::new().is_valid());
    assert!(Game::default().is_valid());
    let mut game = played();
    assert!(game.is_valid());
    assert!(game.play(&Vec::new()).is_ok());
    assert!(game.is_valid());
}

#[test]
fn negative_tick_is_invalid() {
    let mut game = Game::new();
    game.current_tick = -1;
    assert!(!game.is_valid());
}

#[test]
fn entity_from_the_future_is_invalid() {
    let mut game = played();
    game.barrels[0].tick_accessed = game.current_tick + 1;
    assert!(!game.is_valid());
    let mut other = played();
    other.enemy_ships[0].tick_accessed = 7;
    assert!(!other.is_valid());
}

#[test]
fn identity_that_occurs_twice_is_invalid() {
    let mut game = played();
    let twin = game.my_ships[0];
    game.my_ships.push(twin);
    assert!(!game.is_valid());
    let mut other = played();
    other.mines.push(Mine::new(3, 1, 1));
    assert!(!other.is_valid());
    let mut third = played();
    third.mines.push(Mine::new(30, 1, 1));
    assert!(third.is_valid());
}

#[test]
fn ship_out_of_range_is_invalid() {
    assert!(ships_valid(&vec![Ship::new(0, 5, 5, 0, 1, 100)], 0));
    assert!(!ships_valid(&vec![Ship::new(-1, 5, 5, 0, 1, 100)], 0));
    assert!(!ships_valid(&vec![Ship::new(0, 23, 5, 0, 1, 100)], 0));
    assert!(!ships_valid(&vec![Ship::new(0, 5, 21, 0, 1, 100)], 0));
    assert!(!ships_valid(&vec![Ship::new(0, 5, 5, 6, 1, 100)], 0));
    assert!(!ships_valid(&vec![Ship::new(0, 5, 5, -1, 1, 100)], 0));
    assert!(!ships_valid(&vec![Ship::new(0, 5, 5, 0, 3, 100)], 0));
    assert!(!ships_valid(&vec![Ship::new(0, 5, 5, 0, -1, 100)], 0));
    let mut lost = Ship::new(0, 5, 5, 0, 1, 100);
    lost.wp_ind = 4;
    assert!(!ships_valid(&vec![lost], 0));
    assert!(ships_valid(&vec![Ship::new(0, 5, 5, 0, 1, 100), Ship::new(1, 5, 5, 0, 1, 100)], 3));
    assert!(!ships_valid(&vec![Ship::new(1, 5, 5, 0, 1, 100), Ship::new(1, 6, 6, 0, 1, 100)], 3));
}

#[test]
fn other_entities_out_of_range_are_invalid() {
    assert!(barrels_valid(&vec![Barrel::new(0, 5, 5, 10), Barrel::new(1, 5, 5, -10)], 0));
    assert!(!barrels_valid(&vec![Barrel::new(0, -1, 5, 10)], 0));
    assert!(!barrels_valid(&vec![Barrel::new(-3, 1, 5, 10)], 0));
    assert!(mines_valid(&vec![Mine::new(0, 22, 20)], 0));
    assert!(!mines_valid(&vec![Mine::new(0, 22, 21)], 0));
    assert!(cannonballs_valid(&vec![Cannoball::new(0, 9, 0, 3, 3)], 0));
    assert!(!cannonballs_valid(&vec![Cannoball::new(0, 9, -1, 3, 3)], 0));
    assert!(!cannonballs_valid(&vec![Cannoball::new(0, 9, 2, 3, 30)], 0));
    let mut old = Cannoball::new(0, 9, -1, 3, 3);
    old.tick_accessed = 1;
    assert!(cannonballs_valid(&vec![old], 2));
    old.impact_time = -2;
    assert!(!cannonballs_valid(&vec![old], 2));
    old.tick_accessed = -1;
    assert!(!cannonballs_valid(&vec![old], 2));
}

#[test]
fn distinct_identities_are_told_from_repeated_ones() {
    assert!(all_distinct(&Vec::new()));
    assert!(all_distinct(&vec![4]));
    assert!(all_distinct(&vec![4, 2, 9, 0]));
    assert!(!all_distinct(&vec![4, 2, 9, 4]));
    assert!(!all_distinct(&vec![4, 4]));
    assert!(!all_distinct(&vec![1, 2, 2, 3]));
}

#[test]
fn cells_on_and_off_the_board_are_told_apart() {
    assert!(is_on_board(&Point::new(0, 0)));
    assert!(is_on_board(&Point::new(22, 20)));
    assert!(!is_on_board(&Point::new(23, 20)));
    assert!(!is_on_board(&Point::new(22, 21)));
    assert!(!is_on_board(&Point::new(-1, 0)));
    assert!(!is_on_board(&Point::new(0, -1)));
}
