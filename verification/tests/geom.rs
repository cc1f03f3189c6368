use robin_hood::geom::{scale, within, Point, Vector, REACH, WORLD};

#[test]
fn scale_takes_thousandths() {
    assert_eq!(scale(4000, 707), 2828);
    assert_eq!(scale(4000, -707), -2828);
    assert_eq!(scale(3300, 600), 1980);
    assert_eq!(scale(3300, -800), -2640);
    assert_eq!(scale(3300, 1000), 3300);
    assert_eq!(scale(3300, 0), 0);
    assert_eq!(scale(1, 999), 0);
    assert_eq!(scale(1, -999), 0);
    assert_eq!(scale(i64::MAX, 1000), i64::MAX);
    assert_eq!(scale(i64::MAX, -1000), -i64::MAX);
}

#[test]
fn within_measures_the_gap() {
    assert!(within(10, 13, 3));
    assert!(within(13, 10, 3));
    assert!(!within(10, 14, 3));
    assert!(within(-5, 5, 10));
    assert!(!within(-5, 5, 9));
    assert!(!within(i64::MIN, i64::MAX, i64::MAX));
    assert!(within(7, 7, 0));
    assert!(!within(7, 7, -1));
}

#[test]
fn offset_adds() {
    let p = Point { x: 3, y: -4 };
    assert_eq!(p.offset(Vector { x: -10, y: 10 }), Point { x: -7, y: 6 });
}

#[test]
fn world_and_room() {
    assert!(Point { x: WORLD, y: -WORLD }.is_in_world());
    assert!(!Point { x: WORLD + 1, y: 0 }.is_in_world());
    assert!(!Point { x: 0, y: -WORLD - 1 }.is_in_world());
    assert!(Point { x: WORLD - REACH, y: -WORLD + REACH }.is_roomy());
    assert!(!Point { x: WORLD - REACH + 1, y: 0 }.is_roomy());
    assert!(!Point { x: 0, y: -WORLD + REACH - 1 }.is_roomy());
}

#[test]
fn a_heading_is_of_length_one_or_none() {
    let v = |x: i64, y: i64| Vector { x, y };
    for h in [v(0, 0), v(1000, 0), v(0, -1000), v(600, 800), v(-707, 707), v(999, 0), v(1000, 44), v(-866, -500)] {
        assert!(h.is_a_heading());
    }
    // Too long, too short, or out of the range of a component.
    for h in [v(1000, 1000), v(1000, 45), v(998, 0), v(500, 0), v(1, 0), v(0, 1001), v(2000, 0), v(i64::MAX, 0), v(0, i64::MIN)] {
        assert!(!h.is_a_heading());
    }
}
