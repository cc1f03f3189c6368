use robin_hood::anim::Direction;
use robin_hood::geom::{Point, Rect, Vector};
use robin_hood::player::{stride_of, Contact, Figure, Key, Keys, Player, Sense};
use robin_hood::score::Score;

fn p(x: i64, y: i64) -> Point {
    Point { x, y }
}

fn v(x: i64, y: i64) -> Vector {
    Vector { x, y }
}

const NO_KEYS: Keys = Keys { up: false, down: false, left: false, right: false };

/// The world's answers when nothing is in the way.
const FREE: Sense = Sense { hor_touch: false, ver_touch: false, contact: None };

fn hit(depth: i64, nx: i64, ny: i64) -> Sense {
    Sense {
        hor_touch: true,
        ver_touch: true,
        contact: Some(Contact { depth, normal: v(nx, ny) }),
    }
}

fn cell(frame: i64) -> Option<Rect> {
    Some(Rect { x: frame * 32_000, y: 0, w: 32_000, h: 32_000 })
}

#[test]
fn a_new_player_stands_at_the_start() {
    let pl = Player::new(3);
    assert_eq!(pl.position(), p(64_000, 64_000));
    assert_eq!(pl.direction(), v(0, 0));
    assert_eq!(pl.collision_hor(), Direction::Null);
    assert_eq!(pl.collision_ver(), Direction::Null);
    assert_eq!(pl.animation_state(), Direction::Null);
    assert!(!pl.walking());
    assert_eq!(pl.col_handle(), 3);
    assert_eq!(pl.score(), 0);
    assert!(pl.draw_visibility().is_empty());
    assert_eq!(pl.draw(), Figure { sheet: Direction::Null, src: None, dest: p(64_000, 64_000) });
    assert_eq!(pl.eye(), p(69_000, 68_000));
    assert!(pl.is_roomy());
}

#[test]
fn the_collider_sits_beside_the_player() {
    let pl = Player::new(0);
    assert_eq!(pl.shape_pos(None), p(62_500, 72_000));
    assert_eq!(pl.shape_pos(Some(p(0, 0))), p(-1_500, 8_000));
    assert_eq!(pl.draw_mesh(), Rect { x: 62_500, y: 72_000, w: 24_000, h: 16_000 });
}

#[test]
fn keys_set_and_end_the_intent() {
    let mut pl = Player::new(0);
    pl.key_down(Key::Right);
    assert_eq!(pl.direction(), v(1, 0));
    assert_eq!(pl.animation_state(), Direction::Right);
    pl.key_down(Key::Up);
    assert_eq!(pl.direction(), v(1, -1));
    assert_eq!(pl.animation_state(), Direction::Up);
    pl.key_down(Key::Left);
    assert_eq!(pl.direction(), v(-1, -1));
    // A key that comes up ends the intent only if the intent was its own.
    pl.key_up(Key::Right);
    assert_eq!(pl.direction(), v(-1, -1));
    pl.key_up(Key::Left);
    assert_eq!(pl.direction(), v(0, -1));
    pl.key_up(Key::Down);
    assert_eq!(pl.direction(), v(0, -1));
    pl.key_up(Key::Up);
    assert_eq!(pl.direction(), v(0, 0));
    pl.key_down(Key::Down);
    assert_eq!(pl.direction(), v(0, 1));
    assert_eq!(pl.animation_state(), Direction::Down);
}

#[test]
fn a_player_without_intent_stands() {
    let mut pl = Player::new(0);
    pl.key_down(Key::Right);
    pl.update(NO_KEYS, FREE);
    pl.update(NO_KEYS, FREE);
    assert_eq!(pl.draw().src, cell(2));
    pl.key_up(Key::Right);
    pl.update(NO_KEYS, hit(5_000, -1000, 0));
    assert!(!pl.walking());
    assert_eq!(pl.animation_state(), Direction::Null);
    assert_eq!(pl.position(), p(72_000, 64_000));
    assert_eq!(pl.draw(), Figure { sheet: Direction::Null, src: None, dest: p(72_000, 64_000) });
    // The strips have been rewound.
    pl.key_down(Key::Right);
    pl.update(NO_KEYS, FREE);
    assert_eq!(pl.draw().src, cell(1));
}

#[test]
fn walking_along_an_axis_takes_the_whole_speed() {
    for (key, step, side) in [
        (Key::Right, v(4000, 0), Direction::Right),
        (Key::Left, v(-4000, 0), Direction::Left),
        (Key::Down, v(0, 4000), Direction::Down),
        (Key::Up, v(0, -4000), Direction::Up),
    ] {
        let mut pl = Player::new(0);
        pl.key_down(key);
        pl.update(NO_KEYS, FREE);
        assert!(pl.walking());
        assert_eq!(pl.position(), p(64_000 + step.x, 64_000 + step.y));
        assert_eq!(pl.draw(), Figure { sheet: side, src: cell(1), dest: pl.position() });
    }
}

#[test]
fn walking_along_a_diagonal_goes_as_far() {
    assert_eq!(stride_of(v(1, 1), 4000), v(2828, 2828));
    assert_eq!(stride_of(v(-1, 1), 4000), v(-2828, 2828));
    assert_eq!(stride_of(v(1, -1), 4000), v(2828, -2828));
    assert_eq!(stride_of(v(-1, -1), 4000), v(-2828, -2828));
    assert_eq!(stride_of(v(0, 0), 4000), v(0, 0));
    assert_eq!(stride_of(v(0, -1), 4000), v(0, -4000));
    let mut pl = Player::new(0);
    pl.key_down(Key::Right);
    pl.key_down(Key::Up);
    pl.update(NO_KEYS, FREE);
    assert_eq!(pl.position(), p(64_000 + 2828, 64_000 - 2828));
    // A diagonal intent keeps the strip that the last key chose.
    assert_eq!(pl.animation_state(), Direction::Up);
    assert_eq!(pl.draw().src, cell(1));
}

#[test]
fn a_wall_ahead_blocks_and_pushes_back() {
    for (key, nx, ny, block_hor, block_ver, pushed) in [
        (Key::Right, -1000, 0, Direction::Right, Direction::Null, p(62_000, 64_000)),
        (Key::Left, 1000, 0, Direction::Left, Direction::Null, p(66_000, 64_000)),
        (Key::Down, 0, -1000, Direction::Null, Direction::Down, p(64_000, 62_000)),
        (Key::Up, 0, 1000, Direction::Null, Direction::Up, p(64_000, 66_000)),
    ] {
        let mut pl = Player::new(0);
        pl.key_down(key);
        pl.update(NO_KEYS, hit(2_000, nx, ny));
        assert_eq!(pl.collision_hor(), block_hor);
        assert_eq!(pl.collision_ver(), block_ver);
        assert_eq!(pl.direction(), v(0, 0));
        // Pushed out by the depth, and no step after that.
        assert_eq!(pl.position(), pushed);
    }
}

#[test]
fn a_wall_beside_the_way_does_not_block() {
    let mut pl = Player::new(0);
    pl.key_down(Key::Right);
    // The normal points along the way, not against it.
    pl.update(NO_KEYS, hit(2_000, 1000, 0));
    assert_eq!(pl.collision_hor(), Direction::Null);
    assert_eq!(pl.position(), p(68_000, 64_000));
    // The normal is not along an axis.
    pl.update(NO_KEYS, hit(2_000, -707, -707));
    assert_eq!(pl.collision_hor(), Direction::Null);
    assert_eq!(pl.position(), p(72_000, 64_000));
    // The normal is along the other axis.
    pl.update(NO_KEYS, hit(2_000, 0, -1000));
    assert_eq!(pl.collision_ver(), Direction::Null);
    assert_eq!(pl.position(), p(76_000, 64_000));
}

#[test]
fn only_depths_from_nothing_to_thirteen_pixels_count() {
    for (depth, counts) in [(0, true), (1, true), (12_999, true), (13_000, false), (-1, false), (i64::MAX, false), (i64::MIN, false)] {
        let mut pl = Player::new(0);
        pl.key_down(Key::Right);
        pl.update(NO_KEYS, hit(depth, -1000, 0));
        if counts {
            assert_eq!(pl.collision_hor(), Direction::Right);
            assert_eq!(pl.position(), p(64_000 - depth, 64_000));
        } else {
            assert_eq!(pl.collision_hor(), Direction::Null);
            assert_eq!(pl.position(), p(68_000, 64_000));
            assert_eq!(pl.direction(), v(1, 0));
        }
    }
}

#[test]
fn one_axis_at_most_is_blocked_in_a_tick() {
    let mut pl = Player::new(0);
    pl.key_down(Key::Right);
    pl.key_down(Key::Down);
    // A normal against both axes at once: the horizontal axis is taken.
    pl.update(NO_KEYS, hit(3_000, -1000, -1000));
    assert_eq!(pl.collision_hor(), Direction::Right);
    assert_eq!(pl.collision_ver(), Direction::Null);
    assert_eq!(pl.direction(), v(0, 1));
    assert_eq!(pl.position(), p(61_000, 68_000));
    // In the next tick the other axis may follow.
    pl.update(NO_KEYS, hit(1_000, 0, -1000));
    assert_eq!(pl.collision_hor(), Direction::Right);
    assert_eq!(pl.collision_ver(), Direction::Down);
    assert_eq!(pl.position(), p(61_000, 67_000));
}

#[test]
fn no_contact_lifts_both_blocks() {
    let mut pl = Player::new(0);
    pl.key_down(Key::Right);
    pl.key_down(Key::Down);
    pl.update(NO_KEYS, hit(0, -1000, 0));
    pl.update(NO_KEYS, hit(0, 0, -1000));
    assert_eq!((pl.collision_hor(), pl.collision_ver()), (Direction::Right, Direction::Down));
    // Standing still, nothing is asked of the world and the blocks stay.
    pl.update(NO_KEYS, FREE);
    assert_eq!((pl.collision_hor(), pl.collision_ver()), (Direction::Right, Direction::Down));
    pl.key_down(Key::Up);
    pl.update(NO_KEYS, FREE);
    assert_eq!((pl.collision_hor(), pl.collision_ver()), (Direction::Null, Direction::Null));
}

#[test]
fn a_blocked_side_takes_no_key() {
    let mut pl = Player::new(0);
    pl.key_down(Key::Right);
    pl.update(NO_KEYS, hit(0, -1000, 0));
    pl.key_down(Key::Right);
    assert_eq!(pl.direction(), v(0, 0));
    pl.key_down(Key::Left);
    assert_eq!(pl.direction(), v(-1, 0));
}

#[test]
fn walking_away_lifts_a_block() {
    let mut pl = Player::new(0);
    pl.key_down(Key::Right);
    pl.update(NO_KEYS, hit(0, -1000, 0));
    assert_eq!(pl.collision_hor(), Direction::Right);
    pl.key_down(Key::Left);
    // The wall is still touched, with a normal that is not against the way.
    pl.update(NO_KEYS, hit(500, -1000, 0));
    assert_eq!(pl.collision_hor(), Direction::Null);
    assert_eq!(pl.position(), p(60_000, 64_000));

    let mut up = Player::new(0);
    up.key_down(Key::Up);
    up.update(NO_KEYS, hit(0, 0, 1000));
    assert_eq!(up.collision_ver(), Direction::Up);
    up.key_down(Key::Down);
    up.update(NO_KEYS, hit(0, 0, 1000));
    assert_eq!(up.collision_ver(), Direction::Null);
}

fn blocked_right_walking_down() -> Player {
    let mut pl = Player::new(0);
    pl.key_down(Key::Right);
    pl.update(NO_KEYS, hit(0, -1000, 0));
    pl.key_down(Key::Down);
    assert_eq!(pl.direction(), v(0, 1));
    assert_eq!(pl.position(), p(64_000, 64_000));
    pl
}

#[test]
fn a_probe_is_due_while_the_key_of_a_blocked_side_is_held() {
    let pl = blocked_right_walking_down();
    let right = Keys { right: true, ..NO_KEYS };
    // The collider goes where the player would be, walking right and down.
    assert_eq!(pl.hor_probe(right), Some(p(64_000 + 2828 - 1_500, 64_000 + 2828 + 8_000)));
    assert_eq!(pl.hor_probe(NO_KEYS), None);
    assert_eq!(pl.hor_probe(Keys { left: true, ..NO_KEYS }), None);
    assert_eq!(pl.ver_probe(right, true), None);
    // A standing player makes no probe.
    let mut still = blocked_right_walking_down();
    still.key_up(Key::Down);
    assert_eq!(still.hor_probe(right), None);
}

#[test]
fn a_probe_that_meets_nothing_lifts_the_block() {
    let right = Keys { right: true, ..NO_KEYS };
    let mut pl = blocked_right_walking_down();
    pl.update(right, Sense { hor_touch: false, ver_touch: true, contact: Some(Contact { depth: 0, normal: v(0, 1000) }) });
    assert_eq!(pl.collision_hor(), Direction::Null);
    assert_eq!(pl.direction(), v(1, 1));
    assert_eq!(pl.position(), p(64_000 + 2828, 64_000 + 2828));

    let mut held = blocked_right_walking_down();
    held.update(right, Sense { hor_touch: true, ver_touch: true, contact: Some(Contact { depth: 0, normal: v(0, 1000) }) });
    assert_eq!(held.collision_hor(), Direction::Right);
    assert_eq!(held.direction(), v(0, 1));
    assert_eq!(held.position(), p(64_000, 68_000));

    // Without the key no probe is made, whatever the world would answer.
    let mut idle = blocked_right_walking_down();
    idle.update(NO_KEYS, Sense { hor_touch: false, ver_touch: false, contact: Some(Contact { depth: 0, normal: v(0, 1000) }) });
    assert_eq!(idle.collision_hor(), Direction::Right);
}

#[test]
fn the_vertical_probe_lifts_the_vertical_block() {
    let mut pl = Player::new(0);
    pl.key_down(Key::Up);
    pl.update(NO_KEYS, hit(0, 0, 1000));
    assert_eq!(pl.collision_ver(), Direction::Up);
    pl.key_down(Key::Left);
    let up = Keys { up: true, ..NO_KEYS };
    assert_eq!(pl.hor_probe(up), None);
    assert_eq!(pl.ver_probe(up, true), Some(p(64_000 - 2828 - 1_500, 64_000 - 2828 + 8_000)));
    pl.update(up, Sense { hor_touch: true, ver_touch: false, contact: Some(Contact { depth: 0, normal: v(0, -1000) }) });
    assert_eq!(pl.collision_ver(), Direction::Null);
    assert_eq!(pl.collision_hor(), Direction::Null);
    assert_eq!(pl.direction(), v(-1, -1));
}

#[test]
fn the_vertical_probe_starts_from_what_the_horizontal_one_settled() {
    let mut pl = Player::new(0);
    pl.key_down(Key::Right);
    pl.key_down(Key::Down);
    pl.update(NO_KEYS, hit(0, -1000, 0));
    pl.update(NO_KEYS, hit(0, 0, -1000));
    assert_eq!(pl.direction(), v(0, 0));
    // The first of the two ticks still took the player one step down.
    assert_eq!(pl.position(), p(64_000, 68_000));
    pl.key_down(Key::Left);
    pl.key_up(Key::Left);
    assert_eq!(pl.hor_probe(Keys { right: true, down: true, ..NO_KEYS }), None);
    // Blocked right and below, and walking up: both keys held.
    pl.key_down(Key::Up);
    let both = Keys { right: true, down: true, ..NO_KEYS };
    assert_eq!(pl.hor_probe(both), Some(p(64_000 + 2828 - 1_500, 68_000 - 2828 + 8_000)));
    // If the side is free, the probe below tries right and down.
    assert_eq!(pl.ver_probe(both, false), Some(p(64_000 + 2828 - 1_500, 68_000 + 2828 + 8_000)));
    // If it is not, only down.
    assert_eq!(pl.ver_probe(both, true), Some(p(64_000 - 1_500, 68_000 + 4000 + 8_000)));
}

#[test]
fn the_score_adds_up() {
    let mut pl = Player::new(0);
    pl.increase(5);
    pl.increase(15);
    pl.increase(0);
    pl.increase(50);
    assert_eq!(pl.score(), 70);
    assert_eq!(pl.position(), p(64_000, 64_000));
}

#[test]
fn looking_puts_the_hits_in_order_around_the_eye() {
    let mut pl = Player::new(0);
    let e = pl.eye();
    let at = |dx: i64, dy: i64| p(e.x + dx, e.y + dy);
    pl.look(&vec![at(10, 0), at(0, 10), at(-10, 0), at(0, -10)]);
    assert_eq!(pl.draw_visibility(), &vec![at(0, 10), at(-10, 0), at(0, -10), at(10, 0)]);
    pl.look(&vec![]);
    assert!(pl.draw_visibility().is_empty());
}

fn collect<S: Score>(purse: &mut S, coins: &[i32]) -> i32 {
    for c in coins {
        purse.increase(*c);
    }
    purse.score()
}

#[test]
fn the_player_keeps_score_like_anything_that_does() {
    let mut pl = Player::new(0);
    assert_eq!(collect(&mut pl, &[5, 5, 15, 50]), 75);
    assert_eq!(collect(&mut pl, &[]), 75);
}

#[test]
fn a_standing_player_asks_nothing_of_the_world() {
    let mut pl = Player::new(0);
    assert!(!pl.wants_to_walk());
    pl.key_down(Key::Left);
    assert!(pl.wants_to_walk());
    pl.key_up(Key::Left);
    assert!(!pl.wants_to_walk());
    let before = (pl.position(), pl.collision_hor(), pl.collision_ver());
    // Whatever the world would answer, a standing player does not read it.
    pl.update(NO_KEYS, hit(1_000, 1000, 0));
    assert_eq!((pl.position(), pl.collision_hor(), pl.collision_ver()), before);
    pl.update(Keys { left: true, ..NO_KEYS }, FREE);
    assert_eq!((pl.position(), pl.collision_hor(), pl.collision_ver()), before);
}
