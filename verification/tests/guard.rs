use robin_hood::anim::{Direction, Sprite};
use robin_hood::geom::{Point, Rect, Vector};
use robin_hood::guard::{Cone, Guard, GuardSense, Phase};

fn p(x: i64, y: i64) -> Point {
    Point { x, y }
}

fn v(x: i64, y: i64) -> Vector {
    Vector { x, y }
}

fn quiet(turned: Vector) -> GuardSense {
    GuardSense { contact: false, turned }
}

fn triangle_round() -> Vec<Point> {
    vec![p(0, 0), p(100_000, 0), p(100_000, 100_000)]
}

#[test]
fn a_posted_guard_stands_on_its_first_point_and_looks_down() {
    let g = Guard::from_patrol(triangle_round(), 7);
    assert_eq!(g.position(), p(0, 0));
    assert_eq!(g.direction(), v(0, 1000));
    assert_eq!(g.phase(), Phase::Traveling);
    assert_eq!(g.current_patrol(), 0);
    assert_eq!(g.next_point(), p(0, 0));
    assert_eq!(g.animation_state(), Direction::Down);
    assert_eq!(g.vision_handle(), 7);
    assert_eq!(g.patrol_points(), &triangle_round());
    assert_eq!(g.draw_vision(), Cone { apex: p(0, 0), right: p(0, 0), left: p(0, 0) });
    assert_eq!(g.eye(), p(16_000, 13_000));
}

#[test]
fn on_arrival_the_guard_takes_the_next_point_and_turns() {
    let mut g = Guard::from_patrol(triangle_round(), 0);
    let caught = g.update(quiet(v(1000, 0)));
    assert!(!caught);
    assert_eq!(g.current_patrol(), 1);
    assert_eq!(g.next_point(), p(100_000, 0));
    assert_eq!(g.phase(), Phase::Turning(8));
    // It neither walks nor turns in the tick of its arrival.
    assert_eq!(g.position(), p(0, 0));
    assert_eq!(g.direction(), v(0, 1000));
}

#[test]
fn a_turn_takes_eight_ticks_and_no_step() {
    let mut g = Guard::from_patrol(triangle_round(), 0);
    g.update(quiet(v(0, 1000)));
    let steps = [
        v(195, 981),
        v(383, 924),
        v(556, 831),
        v(707, 707),
        v(831, 556),
        v(924, 383),
        v(981, 195),
        v(1000, 0),
    ];
    for (i, s) in steps.iter().enumerate() {
        assert_eq!(g.phase(), Phase::Turning(8 - i as u32));
        g.update(quiet(*s));
        assert_eq!(g.direction(), *s);
        assert_eq!(g.position(), p(0, 0));
    }
    assert_eq!(g.phase(), Phase::Traveling);
    // Now it walks, and no longer reads the direction handed in.
    g.update(quiet(v(0, -1000)));
    assert_eq!(g.direction(), v(1000, 0));
    assert_eq!(g.position(), p(3300, 0));
}

fn turn_to(g: &mut Guard, dir: Vector) {
    while g.phase() != Phase::Traveling {
        g.update(quiet(dir));
    }
}

#[test]
fn a_walking_guard_goes_its_speed_along_its_direction() {
    let mut g = Guard::from_patrol(vec![p(0, 0), p(60_000, 80_000)], 0);
    g.update(quiet(v(0, 0)));
    turn_to(&mut g, v(600, 800));
    g.update(quiet(v(0, 0)));
    assert_eq!(g.position(), p(1980, 2640));
    g.update(quiet(v(0, 0)));
    assert_eq!(g.position(), p(3960, 5280));

    let mut back = Guard::from_patrol(vec![p(0, 0), p(-60_000, -80_000)], 0);
    back.update(quiet(v(0, 0)));
    turn_to(&mut back, v(-600, -800));
    back.update(quiet(v(0, 0)));
    assert_eq!(back.position(), p(-1980, -2640));
}

#[test]
fn the_guard_arrives_within_a_step_and_the_slack() {
    let mut g = Guard::from_patrol(triangle_round(), 0);
    g.update(quiet(v(0, 1000)));
    turn_to(&mut g, v(1000, 0));
    let mut walked = 0;
    while g.phase() == Phase::Traveling {
        let before = g.position();
        g.update(quiet(v(1000, 0)));
        if g.phase() == Phase::Traveling {
            assert_eq!(g.position(), p(before.x + 3300, 0));
            walked += 1;
        } else {
            assert_eq!(g.position(), before);
        }
    }
    assert_eq!(walked, 30);
    assert_eq!(g.position(), p(99_000, 0));
    assert_eq!(g.current_patrol(), 2);
    assert_eq!(g.phase(), Phase::Turning(8));
}

#[test]
fn arrival_needs_both_axes_within_reach() {
    // 3500 is a step of 3300 and the slack of 200.
    for (aim, arrives) in [
        (p(3500, 3500), true),
        (p(-3500, 3500), true),
        (p(3501, 0), false),
        (p(0, 3501), false),
        (p(0, -3501), false),
        (p(3500, -3501), false),
    ] {
        let mut g = Guard::from_patrol(vec![p(0, 0), aim, p(900_000, 900_000)], 0);
        g.update(quiet(v(0, 1000)));
        assert_eq!(g.current_patrol(), 1);
        g.update(quiet(v(0, 1000)));
        assert_eq!(g.current_patrol(), if arrives { 2 } else { 1 });
        assert_eq!(g.phase(), if arrives { Phase::Turning(8) } else { Phase::Turning(7) });
    }
}

#[test]
fn arrival_is_measured_between_the_points_themselves() {
    // A guard left of the origin and an aim right of it are far apart.
    let mut g = Guard::from_patrol(vec![p(-3000, 0), p(3000, 0)], 0);
    g.update(quiet(v(0, 1000)));
    assert_eq!(g.current_patrol(), 1);
    g.update(quiet(v(0, 1000)));
    assert_eq!(g.current_patrol(), 1);
}

#[test]
fn the_aim_goes_round_the_patrol_points() {
    let mut g = Guard::from_patrol(vec![p(0, 0), p(10, 0), p(0, 10), p(10, 10)], 0);
    let mut seen = Vec::new();
    for _ in 0..9 {
        seen.push(g.current_patrol());
        g.update(quiet(v(0, 1000)));
    }
    assert_eq!(seen, vec![0, 1, 2, 3, 0, 1, 2, 3, 0]);
}

#[test]
fn a_round_of_one_point_keeps_its_aim() {
    let mut g = Guard::from_patrol(vec![p(5, 5)], 0);
    for _ in 0..3 {
        g.update(quiet(v(0, 1000)));
        assert_eq!(g.current_patrol(), 0);
        assert_eq!(g.phase(), Phase::Turning(8));
        assert_eq!(g.position(), p(5, 5));
    }
}

#[test]
fn caught_lasts_as_long_as_the_contact() {
    let mut g = Guard::from_patrol(triangle_round(), 0);
    assert!(g.update(GuardSense { contact: true, turned: v(0, 1000) }));
    assert!(!g.update(GuardSense { contact: false, turned: v(0, 1000) }));
    assert!(g.update(GuardSense { contact: true, turned: v(0, 1000) }));
    assert!(g.update(GuardSense { contact: true, turned: v(0, 1000) }));
    assert!(!g.update(GuardSense { contact: false, turned: v(0, 1000) }));
}

#[test]
fn the_cone_opens_thirty_degrees_to_each_side() {
    let mut g = Guard::from_patrol(triangle_round(), 0);
    g.update(quiet(v(0, 1000)));
    assert_eq!(
        g.draw_vision(),
        Cone { apex: p(16_000, 13_000), right: p(-16_000, 68_424), left: p(48_000, 68_424) }
    );
    g.update(quiet(v(1000, 0)));
    assert_eq!(
        g.draw_vision(),
        Cone {
            apex: p(16_000, 13_000),
            right: p(16_000 + 55_424, 13_000 + 32_000),
            left: p(16_000 + 55_424, 13_000 - 32_000),
        }
    );
    g.update(quiet(v(-600, 800)));
    // (-600 * 866 - 800 * 500) * 64 / 1000 = -58854.4, (-600 * 500 + 800 * 866) * 64 / 1000 = 25139.2
    // (-600 * 866 + 800 * 500) * 64 / 1000 = -7654.4, (600 * 500 + 800 * 866) * 64 / 1000 = 63539.2
    assert_eq!(
        g.draw_vision(),
        Cone {
            apex: p(16_000, 13_000),
            right: p(16_000 - 58_854, 13_000 + 25_139),
            left: p(16_000 - 7_654, 13_000 + 63_539),
        }
    );
}

#[test]
fn the_guard_faces_where_its_direction_leans() {
    let mut g = Guard::from_patrol(triangle_round(), 0);
    g.update(quiet(v(0, 1000)));
    assert_eq!(g.animation_state(), Direction::Down);
    for (dir, side) in [
        (v(1000, 0), Direction::Right),
        (v(707, 707), Direction::Right),
        (v(-800, 600), Direction::Left),
        (v(-707, -707), Direction::Left),
        (v(600, -800), Direction::Up),
        (v(0, 0), Direction::Up),
        (v(-600, 800), Direction::Down),
    ] {
        g.update(quiet(dir));
        assert_eq!(g.animation_state(), side);
    }
}

#[test]
fn the_strip_of_the_faced_side_moves_on() {
    let mut g = Guard::from_patrol(triangle_round(), 0);
    assert_eq!(
        g.draw(),
        Some((
            Direction::Down,
            Sprite { src: Rect { x: 0, y: 0, w: 32_000, h: 32_000 }, dest: p(0, 0) }
        ))
    );
    g.update(quiet(v(0, 1000)));
    g.update(quiet(v(0, 1000)));
    assert_eq!(
        g.draw(),
        Some((
            Direction::Down,
            Sprite { src: Rect { x: 64_000, y: 0, w: 32_000, h: 32_000 }, dest: p(0, 0) }
        ))
    );
    g.update(quiet(v(1000, 0)));
    assert_eq!(
        g.draw(),
        Some((
            Direction::Right,
            Sprite { src: Rect { x: 32_000, y: 0, w: 32_000, h: 32_000 }, dest: p(0, 0) }
        ))
    );
}

#[test]
fn shift_moves_the_guard_and_its_round() {
    let mut g = Guard::from_patrol(triangle_round(), 0);
    g.update(quiet(v(0, 1000)));
    assert!(g.is_roomy());
    g.shift(v(-4000, 2828));
    assert_eq!(g.position(), p(-4000, 2828));
    assert_eq!(
        g.patrol_points(),
        &vec![p(-4000, 2828), p(96_000, 2828), p(96_000, 102_828)]
    );
    assert_eq!(g.current_patrol(), 1);
    assert_eq!(g.phase(), Phase::Turning(8));
}

#[test]
fn a_guard_at_the_rim_of_the_world_has_no_room() {
    let w = 0x4000_0000_0000_0000i64;
    assert!(!Guard::from_patrol(vec![p(w, 0)], 0).is_roomy());
    assert!(!Guard::from_patrol(vec![p(0, 0), p(0, -w)], 0).is_roomy());
    assert!(Guard::from_patrol(vec![p(0, 0), p(0, -w + 0x10_0000)], 0).is_roomy());
}

#[test]
fn a_new_guard_patrols_inside_its_room() {
    let low = p(100_000, 200_000);
    let high = p(164_000, 264_000);
    let g = Guard::new(low, high, 4, 9);
    assert_eq!(g.patrol_points().len(), 4);
    for q in g.patrol_points() {
        assert!(low.x <= q.x && q.x < high.x);
        assert!(low.y <= q.y && q.y < high.y);
    }
    assert_eq!(g.position(), g.patrol_points()[0]);
    assert_eq!(g.next_point(), g.patrol_points()[0]);
    assert_eq!(g.current_patrol(), 0);
    assert_eq!(g.vision_handle(), 9);
    assert_eq!(g.phase(), Phase::Traveling);
    assert_eq!(g.direction(), v(0, 1000));
}

#[test]
fn patrol_points_are_drawn_by_chance() {
    let g = Guard::new(p(-1_000_000, -1_000_000), p(1_000_000, 1_000_000), 64, 0);
    let first = g.patrol_points()[0];
    assert!(g.patrol_points().iter().any(|q| q.x != first.x));
    assert!(g.patrol_points().iter().any(|q| q.y != first.y));
    assert!(g.patrol_points().iter().any(|q| q.x != -1_000_000));
    assert!(g.patrol_points().iter().any(|q| q.y != -1_000_000));
    // A room one unit wide leaves no choice.
    let narrow = Guard::new(p(5, 7), p(6, 8), 3, 0);
    assert_eq!(narrow.patrol_points(), &vec![p(5, 7), p(5, 7), p(5, 7)]);
}

/// The square of the length of what a guard walks in one tick along `dir`.
fn walked(dir: Vector) -> i64 {
    assert!(dir.is_a_heading());
    let mut g = Guard::from_patrol(vec![p(0, 0), p(900_000, 900_000)], 0);
    g.update(quiet(dir));
    turn_to(&mut g, dir);
    let from = g.position();
    g.update(quiet(dir));
    let to = g.position();
    (to.x - from.x) * (to.x - from.x) + (to.y - from.y) * (to.y - from.y)
}

#[test]
fn a_guard_walks_its_speed_along_a_heading_that_is_not_quite_of_length_one() {
    // (707, 707) is a little short of length one, (1000, 44) a little long.
    assert_eq!(walked(v(707, 707)), 2 * 2333 * 2333);
    assert_eq!(walked(v(1000, 44)), 3300 * 3300 + 145 * 145);
    for dir in [v(707, 707), v(1000, 44), v(999, 0), v(-600, 800), v(195, -981), v(-866, -500)] {
        let w = walked(dir);
        assert!(3294 * 3294 <= w && w <= 3306 * 3306);
    }
    assert_eq!(walked(v(0, 0)), 0);
}

#[test]
fn a_direction_longer_than_one_is_no_heading() {
    // Along (1000, 1000) a step would be longer than the guard's speed.
    assert!(!v(1000, 1000).is_a_heading());
    assert!(!v(1000, 100).is_a_heading());
    assert!(!v(-1000, -1000).is_a_heading());
}

#[test]
fn the_cone_reaches_as_far_as_the_guard_sees() {
    for dir in [v(0, 1000), v(1000, 0), v(707, 707), v(-600, 800), v(1000, 44), v(195, -981), v(999, 0)] {
        let mut g = Guard::from_patrol(vec![p(0, 0), p(900_000, 900_000)], 0);
        g.update(quiet(dir));
        g.update(quiet(dir));
        assert_eq!(g.direction(), dir);
        let c = g.draw_vision();
        for far in [c.right, c.left] {
            let (dx, dy) = (far.x - c.apex.x, far.y - c.apex.y);
            let reach = dx * dx + dy * dy;
            assert!(63_930 * 63_930 <= reach && reach <= 64_070 * 64_070);
        }
    }
}
