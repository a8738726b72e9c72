use hexfleet::action::Action;
use hexfleet::game::Game;
use hexfleet::geometry::Point;
use hexfleet::snapshot::{EntityKind, EntityRecord};

fn record(entity_id: i32, kind: EntityKind, x: i32, y: i32, args: [i32; 4]) -> EntityRecord {
    EntityRecord { entity_id, kind, x, y, arg_1: args[0], arg_2: args[1], arg_3: args[2], arg_4: args[3] }
}

fn own(entity_id: i32, x: i32, y: i32, rotation: i32, speed: i32) -> EntityRecord {
    record(entity_id, EntityKind::Ship, x, y, [rotation, speed, 100, 1])
}

fn enemy(entity_id: i32, x: i32, y: i32, rotation: i32, speed: i32) -> EntityRecord {
    record(entity_id, EntityKind::Ship, x, y, [rotation, speed, 100, 0])
}

fn barrel(entity_id: i32, x: i32, y: i32) -> EntityRecord {
    record(entity_id, EntityKind::Barrel, x, y, [10, 0, 0, 0])
}

fn is_move(action: Action) -> bool {
    matches!(action, Action::WAIT | Action::PORT | Action::STARBOARD | Action::FASTER | Action::SLOWER)
}

#[test]
fn empty_snapshot_gives_no_action() {
    let mut game = Game::new();
    assert_eq!(game.init(&Vec::new()), Ok(Vec::new()));
    assert_eq!(game.play(&Vec::new()), Ok(Vec::new()));
}

#[test]
fn lone_ship_moves_and_never_fires() {
    let mut game = Game::new();
    let actions = game.init(&vec![own(0, 5, 5, 0, 1)]).unwrap();
    assert_eq!(actions.len(), 1);
    assert!(is_move(actions[0]));
    for tick in 1..6 {
        let actions = game.play(&vec![own(0, 5 + tick, 5, 0, 1)]).unwrap();
        assert_eq!(actions.len(), 1);
        assert!(is_move(actions[0]));
        assert_eq!(game.my_ships[0].cd, 0);
    }
}

#[test]
fn unreported_enemy_is_not_fired_at() {
    let mut game = Game::new();
    let first = game.init(&vec![own(0, 5, 5, 0, 0), enemy(7, 8, 5, 3, 2)]).unwrap();
    assert_eq!(first, vec![Action::FIRE(8, 5)]);
    assert!(game.play(&vec![own(0, 5, 5, 0, 0)]).is_ok());
    let third = game.play(&vec![own(0, 5, 5, 0, 0)]).unwrap();
    assert_eq!(game.my_ships[0].cd, 0);
    assert_eq!(game.enemy_ships.len(), 1);
    assert_eq!(third.len(), 1);
    assert!(is_move(third[0]));
}

#[test]
fn ship_fires_at_an_enemy_on_a_collision_course() {
    let mut game = Game::new();
    let actions = game.init(&vec![own(0, 5, 5, 0, 0), enemy(7, 8, 5, 3, 2)]).unwrap();
    assert_eq!(actions, vec![Action::FIRE(8, 5)]);
    assert_eq!(game.my_ships[0].cd, 2);
}

#[test]
fn cooldown_forbids_fire_and_counts_down() {
    let mut game = Game::new();
    let records = vec![own(0, 5, 5, 0, 0), enemy(7, 8, 5, 3, 2)];
    assert_eq!(game.init(&records).unwrap(), vec![Action::FIRE(8, 5)]);
    assert_eq!(game.my_ships[0].cd, 2);
    let second = game.play(&records).unwrap();
    assert_eq!(game.my_ships[0].cd, 1);
    assert_eq!(second.len(), 1);
    assert!(is_move(second[0]));
    let third = game.play(&records).unwrap();
    assert_eq!(third, vec![Action::FIRE(8, 5)]);
    assert_eq!(game.my_ships[0].cd, 2);
}

#[test]
fn ship_fires_ahead_of_a_near_enemy() {
    let mut game = Game::new();
    let actions = game.init(&vec![own(0, 5, 5, 0, 0), enemy(7, 5, 8, 0, 1)]).unwrap();
    assert_eq!(actions, vec![Action::FIRE(7, 8)]);
    assert_eq!(game.my_ships[0].cd, 2);
}

#[test]
fn ship_fires_at_a_near_enemy_that_lies_still() {
    let mut game = Game::new();
    let actions = game.init(&vec![own(0, 5, 5, 0, 0), enemy(7, 5, 8, 0, 0)]).unwrap();
    assert_eq!(actions, vec![Action::FIRE(5, 8)]);
}

#[test]
fn lead_grows_with_the_distance() {
    // The enemy is six cells away and sails east: the shot leads it by three
    // cells, which brings the aim within range.
    let mut game = Game::new();
    let actions = game.init(&vec![own(0, 11, 5, 0, 0), enemy(7, 5, 5, 0, 1)]).unwrap();
    assert_eq!(actions, vec![Action::FIRE(8, 5)]);
}

#[test]
fn enemy_out_of_range_is_not_fired_at() {
    let mut game = Game::new();
    let actions = game.init(&vec![own(0, 5, 5, 0, 0), enemy(7, 5, 9, 0, 0)]).unwrap();
    assert_eq!(actions.len(), 1);
    assert!(is_move(actions[0]));
    assert_eq!(game.my_ships[0].cd, 0);
}

#[test]
fn every_live_own_ship_gets_one_action_in_order() {
    let mut game = Game::new();
    let first = game.init(&vec![
        own(0, 3, 3, 0, 0),
        enemy(7, 6, 15, 3, 2),
        own(1, 3, 15, 0, 0),
        own(2, 18, 10, 3, 1),
    ]).unwrap();
    assert_eq!(first.len(), 3);
    assert!(is_move(first[0]));
    assert_eq!(first[1], Action::FIRE(6, 15));
    assert!(is_move(first[2]));
    let second = game.play(&vec![own(2, 17, 10, 3, 1), own(0, 3, 3, 0, 0), enemy(7, 20, 20, 3, 0)]).unwrap();
    assert_eq!(second.len(), 2);
    assert_eq!(game.my_ships.len(), 3);
    assert_eq!(game.my_ships[1].cd, 2);
    assert_eq!(game.my_ships[1].tick_accessed, 0);
}

#[test]
fn ship_heads_for_a_barrel_and_keeps_its_waypoint() {
    let mut game = Game::new();
    let actions = game.init(&vec![own(0, 2, 2, 0, 1), barrel(5, 8, 2)]).unwrap();
    assert_eq!(actions.len(), 1);
    assert!(is_move(actions[0]));
    assert_eq!(game.my_ships[0].wp_ind, 0);
    let (action, wp_ind) = game.decide(0);
    assert_eq!(wp_ind, 0);
    assert_eq!(action, game.move_to(&Point::new(8, 2), &Point::new(2, 2), 0, 1, 0));
}

#[test]
fn ship_without_a_barrel_patrols() {
    let mut game = Game::new();
    let actions = game.init(&vec![own(0, 2, 2, 0, 1), own(1, 10, 10, 0, 1)]).unwrap();
    assert_eq!(actions.len(), 2);
    assert_eq!(game.my_ships[0].wp_ind, 1);
    assert_eq!(game.my_ships[1].wp_ind, 1);
    assert_eq!(actions[1], game.move_to(&Point::new(20, 2), &Point::new(10, 10), 0, 1, 1));
}

#[test]
fn patrol_goes_round_the_four_waypoints() {
    let mut game = Game::new();
    assert!(game.init(&vec![own(0, 2, 2, 0, 0)]).is_ok());
    assert_eq!(game.my_ships[0].wp_ind, 1);
    assert!(game.play(&vec![own(0, 20, 2, 0, 0)]).is_ok());
    assert_eq!(game.my_ships[0].wp_ind, 2);
    assert!(game.play(&vec![own(0, 10, 10, 0, 0)]).is_ok());
    assert_eq!(game.my_ships[0].wp_ind, 2);
    assert!(game.play(&vec![own(0, 2, 18, 0, 0)]).is_ok());
    assert_eq!(game.my_ships[0].wp_ind, 3);
    assert!(game.play(&vec![own(0, 20, 18, 0, 0)]).is_ok());
    assert_eq!(game.my_ships[0].wp_ind, 0);
}

#[test]
fn turn_leaves_everything_but_cooldown_and_waypoint() {
    let mut game = Game::new();
    let records = vec![own(0, 5, 5, 0, 0), enemy(7, 8, 5, 3, 2), barrel(3, 1, 1)];
    assert!(game.absorb(&records).is_ok());
    game.calc_under_fire();
    let before_own = game.my_ships.clone();
    let before_enemy = game.enemy_ships.clone();
    let before_barrels = game.barrels.clone();
    let actions = game.do_next_turn();
    assert_eq!(actions, vec![Action::FIRE(8, 5)]);
    assert_eq!(game.enemy_ships, before_enemy);
    assert_eq!(game.barrels, before_barrels);
    assert_eq!(game.my_ships.len(), 1);
    let mut expected = before_own[0];
    expected.cd = 2;
    assert_eq!(game.my_ships[0], expected);
    assert_eq!(game.current_tick, 0);
}
