use hexfleet::geometry::Point;

fn walk(from: Point, rotation: i32, steps: i32) -> Point {
    let mut p = from;
    for _ in 0..steps {
        p = p.get_neighbour(rotation);
    }
    p
}

#[test]
fn new_keeps_coordinates() {
    let p = Point::new(3, 9);
    assert_eq!(p.x, 3);
    assert_eq!(p.y, 9);
    assert_eq!(p, Point { x: 3, y: 9 });
}

#[test]
fn distance_to_self_is_zero() {
    for x in 0..23 {
        for y in 0..21 {
            let a = Point::new(x, y);
            assert_eq!(a.distance(&a), 0);
        }
    }
}

#[test]
fn distance_is_symmetric() {
    let a = Point::new(2, 3);
    let b = Point::new(17, 12);
    assert_eq!(a.distance(&b), b.distance(&a));
    for x in 0..23 {
        for y in 0..21 {
            let c = Point::new(x, y);
            assert_eq!(a.distance(&c), c.distance(&a));
        }
    }
}

#[test]
fn distance_along_a_row() {
    assert_eq!(Point::new(5, 5).distance(&Point::new(10, 5)), 5);
    assert_eq!(Point::new(0, 0).distance(&Point::new(22, 0)), 22);
}

#[test]
fn distance_across_the_board() {
    assert_eq!(Point::new(0, 0).distance(&Point::new(22, 20)), 32);
    assert_eq!(Point::new(22, 0).distance(&Point::new(0, 20)), 32);
}

#[test]
fn distance_between_rows_of_different_parity() {
    assert_eq!(Point::new(2, 2).distance(&Point::new(3, 3)), 2);
    assert_eq!(Point::new(2, 2).distance(&Point::new(2, 3)), 1);
    assert_eq!(Point::new(5, 5).distance(&Point::new(5, 8)), 3);
    assert_eq!(Point::new(5, 5).distance(&Point::new(7, 8)), 3);
}

#[test]
fn neighbours_in_an_even_row() {
    let p = Point::new(5, 4);
    assert_eq!(p.get_neighbour(0), Point::new(6, 4));
    assert_eq!(p.get_neighbour(1), Point::new(5, 3));
    assert_eq!(p.get_neighbour(2), Point::new(4, 3));
    assert_eq!(p.get_neighbour(3), Point::new(4, 4));
    assert_eq!(p.get_neighbour(4), Point::new(4, 5));
    assert_eq!(p.get_neighbour(5), Point::new(5, 5));
}

#[test]
fn neighbours_in_an_odd_row() {
    let p = Point::new(5, 5);
    assert_eq!(p.get_neighbour(0), Point::new(6, 5));
    assert_eq!(p.get_neighbour(1), Point::new(6, 4));
    assert_eq!(p.get_neighbour(2), Point::new(5, 4));
    assert_eq!(p.get_neighbour(3), Point::new(4, 5));
    assert_eq!(p.get_neighbour(4), Point::new(5, 6));
    assert_eq!(p.get_neighbour(5), Point::new(6, 6));
}

#[test]
fn neighbour_at_the_wall_is_the_cell_itself() {
    let corner = Point::new(0, 0);
    assert_eq!(corner.get_neighbour(1), corner);
    assert_eq!(corner.get_neighbour(2), corner);
    assert_eq!(corner.get_neighbour(3), corner);
    let far = Point::new(22, 20);
    assert_eq!(far.get_neighbour(0), far);
    assert_eq!(far.get_neighbour(4), far);
    assert_eq!(far.get_neighbour(5), far);
    assert_eq!(Point::new(0, 2).get_neighbour(4), Point::new(0, 2));
    assert_eq!(Point::new(22, 3).get_neighbour(1), Point::new(22, 3));
}

#[test]
fn neighbour_along_the_wall_is_a_move() {
    assert_eq!(Point::new(0, 1).get_neighbour(2), Point::new(0, 0));
    assert_eq!(Point::new(0, 1).get_neighbour(4), Point::new(0, 2));
    assert_eq!(Point::new(22, 2).get_neighbour(1), Point::new(22, 1));
    assert_eq!(Point::new(0, 0).get_neighbour(0), Point::new(1, 0));
}

#[test]
fn every_neighbour_is_adjacent_or_the_cell_itself() {
    for x in 0..23 {
        for y in 0..21 {
            let p = Point::new(x, y);
            for rotation in 0..6 {
                let n = p.get_neighbour(rotation);
                assert!(0 <= n.x && n.x <= 22 && 0 <= n.y && n.y <= 20);
                assert!(n == p || p.distance(&n) == 1);
            }
        }
    }
}

#[test]
fn ring_of_six_facings_closes() {
    for x in 2..21 {
        for y in 2..19 {
            for start in 0..6 {
                let origin = Point::new(x, y);
                let mut p = origin;
                for k in 0..6 {
                    p = p.get_neighbour((start + k) % 6);
                }
                assert_eq!(p, origin);
            }
        }
    }
}

#[test]
fn six_steps_in_one_facing_lead_away() {
    assert_eq!(walk(Point::new(5, 5), 0, 6), Point::new(11, 5));
    assert_eq!(Point::new(5, 5).distance(&walk(Point::new(5, 5), 0, 6)), 6);
    assert_eq!(walk(Point::new(10, 10), 1, 6), Point::new(13, 4));
    assert_eq!(Point::new(10, 10).distance(&walk(Point::new(10, 10), 1, 6)), 6);
}

#[test]
fn six_steps_into_the_wall_stay() {
    assert_eq!(walk(Point::new(22, 5), 0, 6), Point::new(22, 5));
    assert_eq!(walk(Point::new(4, 0), 1, 6), Point::new(4, 0));
}

#[test]
fn six_steps_return_only_when_the_first_is_blocked() {
    for x in 0..23 {
        for y in 0..21 {
            for rotation in 0..6 {
                let p = Point::new(x, y);
                let blocked = p.get_neighbour(rotation) == p;
                assert_eq!(walk(p, rotation, 6) == p, blocked);
            }
        }
    }
}

#[test]
fn offset_of_nothing_is_the_cell() {
    for x in 0..23 {
        for y in 0..21 {
            for rotation in 0..6 {
                let p = Point::new(x, y);
                assert_eq!(p.get_offset(rotation, 0), p);
            }
        }
    }
}

#[test]
fn offset_along_a_row() {
    assert_eq!(Point::new(5, 5).get_offset(0, 3), Point::new(8, 5));
    assert_eq!(Point::new(5, 5).get_offset(3, 1), Point::new(4, 5));
    assert_eq!(Point::new(5, 5).get_offset(3, 4), Point::new(1, 5));
}

#[test]
fn offset_on_a_diagonal() {
    assert_eq!(Point::new(5, 5).get_offset(1, 3), Point::new(7, 2));
    assert_eq!(Point::new(5, 4).get_offset(1, 3), Point::new(6, 1));
    assert_eq!(Point::new(5, 5).get_offset(2, 3), Point::new(4, 2));
    assert_eq!(Point::new(5, 4).get_offset(2, 3), Point::new(3, 1));
    assert_eq!(Point::new(5, 5).get_offset(4, 2), Point::new(4, 7));
    assert_eq!(Point::new(5, 4).get_offset(5, 2), Point::new(6, 6));
}

#[test]
fn offset_is_clamped_to_the_board() {
    assert_eq!(Point::new(1, 1).get_offset(3, 5), Point::new(0, 1));
    assert_eq!(Point::new(5, 2).get_offset(1, 6), Point::new(8, 0));
    assert_eq!(Point::new(20, 19).get_offset(5, 4), Point::new(22, 20));
    assert_eq!(Point::new(21, 7).get_offset(0, 1000), Point::new(22, 7));
    assert_eq!(Point::new(3, 3).get_offset(4, i32::MAX), Point::new(0, 20));
}

#[test]
fn offset_agrees_with_an_unhindered_walk() {
    for x in 0..23 {
        for y in 0..21 {
            for rotation in 0..6 {
                let p = Point::new(x, y);
                let mut q = p;
                for steps in 1..8 {
                    let next = q.get_neighbour(rotation);
                    if next == q {
                        break;
                    }
                    q = next;
                    assert_eq!(p.get_offset(rotation, steps), q);
                    assert_eq!(p.distance(&q), steps);
                }
            }
        }
    }
}
