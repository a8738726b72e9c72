use hexfleet::bearing::Heading;
use hexfleet::geometry::Point;

#[test]
fn heading_due_east() {
    let h = Point::new(5, 5).heading(&Point::new(10, 5), 0);
    assert_eq!(h, Heading { num: 20, den: 100 });
}

#[test]
fn heading_with_the_target_astern() {
    let h = Point::new(5, 5).heading(&Point::new(10, 5), 3);
    assert_eq!(h, Heading { num: -20, den: 100 });
}

#[test]
fn heading_to_the_own_cell_bears_east() {
    let p = Point::new(7, 7);
    assert_eq!(p.heading(&p, 0), Heading { num: 4, den: 4 });
    assert_eq!(p.heading(&p, 1), Heading { num: 2, den: 4 });
    assert_eq!(p.heading(&p, 2), Heading { num: -2, den: 4 });
    assert_eq!(p.heading(&p, 3), Heading { num: -4, den: 4 });
    assert_eq!(p.heading(&p, 4), Heading { num: -2, den: 4 });
    assert_eq!(p.heading(&p, 5), Heading { num: 2, den: 4 });
}

#[test]
fn heading_to_the_next_row() {
    let h = Point::new(5, 4).heading(&Point::new(5, 3), 1);
    assert_eq!(h, Heading { num: 4, den: 4 });
    let g = Point::new(5, 4).heading(&Point::new(5, 5), 5);
    assert_eq!(g, Heading { num: 4, den: 4 });
}

#[test]
fn heading_in_every_facing() {
    let from = Point::new(6, 5);
    let to = Point::new(9, 7);
    assert_eq!(from.heading(&to, 0), Heading { num: 12, den: 48 });
    assert_eq!(from.heading(&to, 1), Heading { num: 0, den: 48 });
    assert_eq!(from.heading(&to, 2), Heading { num: -12, den: 48 });
    assert_eq!(from.heading(&to, 3), Heading { num: -12, den: 48 });
    assert_eq!(from.heading(&to, 4), Heading { num: 0, den: 48 });
    assert_eq!(from.heading(&to, 5), Heading { num: 12, den: 48 });
}

#[test]
fn closer_heading_has_the_greater_cosine() {
    let straight = Heading { num: 20, den: 100 };
    let oblique = Heading { num: 10, den: 100 };
    let across = Heading { num: 0, den: 100 };
    let away = Heading { num: -10, den: 100 };
    let astern = Heading { num: -20, den: 100 };
    assert!(straight.closer_than(&oblique));
    assert!(oblique.closer_than(&across));
    assert!(across.closer_than(&away));
    assert!(away.closer_than(&astern));
    assert!(straight.closer_than(&astern));
    assert!(!oblique.closer_than(&straight));
    assert!(!astern.closer_than(&away));
    assert!(!away.closer_than(&across));
}

#[test]
fn equal_cosines_are_not_closer() {
    let a = Heading { num: 20, den: 100 };
    let b = Heading { num: 4, den: 4 };
    assert!(!a.closer_than(&b));
    assert!(!b.closer_than(&a));
    let c = Heading { num: -3, den: 9 };
    let d = Heading { num: -1, den: 1 };
    assert!(!c.closer_than(&d));
    assert!(!d.closer_than(&c));
    assert!(!a.closer_than(&a));
}

#[test]
fn cosines_of_different_lengths_compare() {
    // 7 / sqrt(52) is greater than 1 / sqrt(4).
    let near = Heading { num: 14, den: 52 };
    let half = Heading { num: 8, den: 64 };
    assert!(near.closer_than(&half));
    assert!(!half.closer_than(&near));
    // -1 / sqrt(4) is greater than -7 / sqrt(52).
    let a = Heading { num: -8, den: 64 };
    let b = Heading { num: -14, den: 52 };
    assert!(a.closer_than(&b));
    assert!(!b.closer_than(&a));
}

#[test]
fn turning_towards_the_target_is_closer() {
    let from = Point::new(6, 5);
    let to = Point::new(10, 5);
    let before = from.heading(&to, 1);
    let after = Point::new(7, 4).heading(&to, 0);
    assert_eq!(before, Heading { num: 8, den: 64 });
    assert_eq!(after, Heading { num: 14, den: 52 });
    assert!(after.closer_than(&before));
}
