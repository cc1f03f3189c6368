use robin_hood::anim::Sprite;
use robin_hood::geom::{Point, Rect, Vector};
use robin_hood::guard::{GuardSense, Phase};
use robin_hood::level::LoadError;
use robin_hood::level::is_tile_size;
use robin_hood::map::{is_start, TileMap};

fn p(x: i64, y: i64) -> Point {
    Point { x, y }
}

fn v(x: i64, y: i64) -> Vector {
    Vector { x, y }
}

const TILE: Vector = Vector { x: 32_000, y: 32_000 };

const START: Point = Point { x: 100_000, y: 100_000 };

fn load(text: &str) -> Result<TileMap, LoadError> {
    TileMap::load(text.as_bytes(), START, TILE)
}

#[test]
fn a_room_line_fills_its_room() {
    let map = load("1 1\n0,0 2,2 1 4 3\n").unwrap();
    let low = START;
    let high = p(164_000, 164_000);
    let guards = map.draw_guards();
    assert_eq!(guards.len(), 1);
    let g = &guards[0];
    assert_eq!(g.patrol_points().len(), 4);
    for q in g.patrol_points() {
        assert!(low.x <= q.x && q.x < high.x && low.y <= q.y && q.y < high.y);
    }
    assert_eq!(g.position(), g.patrol_points()[0]);
    assert_eq!(g.current_patrol(), 0);
    assert_eq!(g.phase(), Phase::Traveling);
    assert_eq!(g.vision_handle(), 0);
    let gold = map.draw_gold();
    assert_eq!(gold.len(), 3);
    for (i, c) in gold.iter().enumerate() {
        assert!(low.x <= c.pos.x && c.pos.x < high.x && low.y <= c.pos.y && c.pos.y < high.y);
        assert!([5, 15, 50].contains(&c.value));
        assert_eq!(c.value, [0, 5, 15, 50][c.kind as usize]);
        assert_eq!(c.handle, 1 + i as u64);
    }
    assert_eq!(map.map_handle(), 4);
    assert_eq!(map.start(), START);
    assert_eq!(map.velocity(), v(0, 0));
    assert_eq!(map.size(), (1, 1));
    assert!(map.is_roomy());
}

#[test]
fn rooms_are_filled_one_after_another() {
    let map = load("1 1\n0,0 1,1 2 1 1\n5,5 6,7 1 3 2\n1,1 1,1 0 0 0\n0,0 1,1 -3 0 -1\n").unwrap();
    let guards = map.draw_guards();
    let gold = map.draw_gold();
    assert_eq!(guards.len(), 3);
    assert_eq!(gold.len(), 3);
    let handles: Vec<u64> = guards.iter().map(|g| g.vision_handle()).collect();
    assert_eq!(handles, vec![0, 1, 3]);
    let names: Vec<u64> = gold.iter().map(|c| c.handle).collect();
    assert_eq!(names, vec![2, 4, 5]);
    assert_eq!(map.map_handle(), 6);
    assert_eq!(guards[0].patrol_points().len(), 1);
    assert_eq!(guards[2].patrol_points().len(), 3);
    for q in guards[2].patrol_points() {
        assert!(260_000 <= q.x && q.x < 292_000 && 260_000 <= q.y && q.y < 324_000);
    }
    assert!(260_000 <= gold[1].pos.x && gold[1].pos.x < 292_000);
    assert!(100_000 <= gold[0].pos.x && gold[0].pos.x < 132_000);
}

#[test]
fn the_map_takes_over_what_the_text_holds() {
    let map = load("3 4\n222\n2 2\n222\n").unwrap();
    assert_eq!(map.size(), (3, 4));
    assert_eq!(map.walls().len(), 8);
    assert_eq!(map.get_corners().len(), 0);
    assert_eq!(map.tiles().len(), 3);
    assert_eq!(map.tiles()[1][1].tile_pos, p(1, 1));
    assert!(map.draw_guards().is_empty());
    assert!(map.draw_gold().is_empty());
    assert_eq!(map.map_handle(), 0);
}

#[test]
fn faults_of_the_text_come_first() {
    assert_eq!(load("").unwrap_err(), LoadError::MissingHeader);
    assert_eq!(load("x").unwrap_err(), LoadError::BadHeader);
    assert_eq!(load("3 3\n").unwrap_err(), LoadError::MissingRow);
    assert_eq!(load("1 1\n1,1 0,0 0 0 1\nbad\n").unwrap_err(), LoadError::BadRoom);
}

#[test]
fn a_room_without_inside_cannot_be_filled() {
    assert_eq!(load("1 1\n2,2 2,5 0 0 1\n").unwrap_err(), LoadError::EmptyRoom);
    assert_eq!(load("1 1\n2,5 3,5 0 0 1\n").unwrap_err(), LoadError::EmptyRoom);
    assert_eq!(load("1 1\n3,3 2,2 1 1 0\n").unwrap_err(), LoadError::EmptyRoom);
    assert_eq!(load("1 1\n0,0 2,2 1 1 1\n3,3 3,3 1 1 0\n").unwrap_err(), LoadError::EmptyRoom);
    // A room that gets nothing needs no inside.
    assert!(load("1 1\n2,2 2,2 0 0 0\n").is_ok());
    assert!(load("1 1\n3,3 2,2 0 7 -1\n").is_ok());
    // With tiles of no width no room has an inside.
    let flat = TileMap::load(b"1 1\n0,0 2,2 0 0 1\n", START, v(0, 32_000));
    assert_eq!(flat.unwrap_err(), LoadError::EmptyRoom);
}

#[test]
fn guards_need_a_patrol_point() {
    assert_eq!(load("1 1\n0,0 2,2 1 0 3\n").unwrap_err(), LoadError::NoPatrol);
    assert_eq!(load("1 1\n0,0 2,2 1 -1 0\n").unwrap_err(), LoadError::NoPatrol);
    assert_eq!(load("1 1\n2,2 2,2 1 0 0\n").unwrap_err(), LoadError::NoPatrol);
    assert!(load("1 1\n0,0 2,2 0 0 3\n").is_ok());
    assert_eq!(load("1 1\n2,2 2,2 0 0 1\n0,0 2,2 1 0 0\n").unwrap_err(), LoadError::EmptyRoom);
}

#[test]
fn too_many_guards_and_gold() {
    assert_eq!(load("1 1\n0,0 1,1 0 0 16777217\n").unwrap_err(), LoadError::Crowded);
    assert_eq!(load("1 1\n0,0 1,1 16777216 1 1\n").unwrap_err(), LoadError::Crowded);
    assert_eq!(
        load("1 1\n0,0 1,1 1 1 0\n0,0 1,1 0 0 16777216\n").unwrap_err(),
        LoadError::Crowded
    );
    // That the rooms ask too much is found before any room is looked at.
    assert_eq!(load("1 1\n1,1 1,1 1 0 1\n0,0 1,1 0 0 2147483647\n").unwrap_err(), LoadError::Crowded);
}

#[test]
fn the_map_moves_against_the_player() {
    let mut map = load("1 1\n").unwrap();
    map.update(v(1, 0));
    assert_eq!(map.velocity(), v(-4000, 0));
    assert_eq!(map.start(), p(96_000, 100_000));
    map.update(v(0, -1));
    assert_eq!(map.velocity(), v(0, 4000));
    assert_eq!(map.start(), p(96_000, 104_000));
    map.update(v(-1, 1));
    assert_eq!(map.velocity(), v(2828, -2828));
    assert_eq!(map.start(), p(98_828, 101_172));
    map.update(v(0, 0));
    assert_eq!(map.velocity(), v(0, 0));
    assert_eq!(map.start(), p(98_828, 101_172));
}

#[test]
fn touched_gold_is_collected_and_gone() {
    let mut map = load("1 1\n0,0 2,2 0 0 4\n").unwrap();
    let before = map.draw_gold().clone();
    let all: i32 = before.iter().map(|c| c.value).sum();
    map.update(v(1, 1));
    let got = map.update_gold(&vec![false, true, false, true]);
    assert_eq!(got, before[1].value + before[3].value);
    let left = map.draw_gold().clone();
    assert_eq!(left.len(), 2);
    for (was, is) in [(before[0], left[0]), (before[2], left[1])] {
        assert_eq!(is.pos, p(was.pos.x - 2828, was.pos.y - 2828));
        assert_eq!((is.kind, is.value, is.handle), (was.kind, was.value, was.handle));
    }
    assert_eq!(got + left.iter().map(|c| c.value).sum::<i32>(), all);
    // A tick without a touch gives nothing and keeps every piece.
    assert_eq!(map.update_gold(&vec![false, false]), 0);
    assert_eq!(map.draw_gold().len(), 2);
    assert_eq!(map.draw_gold()[0].pos, p(before[0].pos.x - 5656, before[0].pos.y - 5656));
    let rest = map.update_gold(&vec![true, true]);
    assert_eq!(got + rest, all);
    assert!(map.draw_gold().is_empty());
    assert_eq!(map.update_gold(&vec![]), 0);
}

#[test]
fn any_guard_that_sees_the_player_catches_it() {
    let mut map = load("1 1\n0,0 2,2 3 2 0\n").unwrap();
    let quiet = GuardSense { contact: false, turned: v(0, 1000) };
    let alarm = GuardSense { contact: true, turned: v(0, 1000) };
    assert!(!map.update_guards(&vec![quiet, quiet, quiet]));
    assert!(map.update_guards(&vec![quiet, quiet, alarm]));
    assert!(map.update_guards(&vec![alarm, quiet, quiet]));
    assert!(map.update_guards(&vec![alarm, alarm, alarm]));
    // Nothing is kept from the tick before.
    assert!(!map.update_guards(&vec![quiet, quiet, quiet]));
    let mut none = load("1 1\n").unwrap();
    assert!(!none.update_guards(&vec![]));
}

#[test]
fn guards_move_with_the_map_and_make_their_tick() {
    let mut map = load("1 1\n0,0 2,2 2 3 0\n").unwrap();
    let rounds: Vec<Vec<Point>> = map.draw_guards().iter().map(|g| g.patrol_points().clone()).collect();
    map.update(v(1, 0));
    let quiet = GuardSense { contact: false, turned: v(0, 1000) };
    map.update_guards(&vec![quiet, quiet]);
    for (g, round) in map.draw_guards().iter().zip(rounds.iter()) {
        let moved: Vec<Point> = round.iter().map(|q| p(q.x - 4000, q.y)).collect();
        assert_eq!(g.patrol_points(), &moved);
        // Each stood on its first point, so each has arrived and turns.
        assert_eq!(g.position(), moved[0]);
        assert_eq!(g.current_patrol(), 1);
        assert_eq!(g.phase(), Phase::Turning(8));
    }
    let cones = map.draw_guard_vision();
    assert_eq!(cones.len(), 2);
    for (c, g) in cones.iter().zip(map.draw_guards().iter()) {
        assert_eq!(*c, g.draw_vision());
        assert_eq!(c.apex, g.eye());
    }
}

#[test]
fn corner_points_follow_the_map() {
    let mut map = load("3 3\n1 3\n 9\n").unwrap();
    assert_eq!(
        map.get_corners(),
        vec![p(112_000, 112_000), p(100_000 + 64_000 + 20_000, 112_000), p(100_000 + 64_000, 132_000)]
    );
    map.update(v(1, 0));
    assert_eq!(
        map.get_corners(),
        vec![p(108_000, 112_000), p(180_000, 112_000), p(160_000, 132_000)]
    );
    let odd = TileMap::load(b"2 2\n B\n", p(0, 0), v(100, 7)).unwrap();
    // 44 parts of 32 of a tile 100 wide: 137.5.
    assert_eq!(odd.get_corners(), vec![p(137, 0)]);
}

#[test]
fn tiles_are_drawn_layer_by_layer() {
    let map = load("3 3\n1 2\nC6 \n").unwrap();
    let cell = |col: i64, row: i64| Rect { x: col * 32_000, y: row * 32_000, w: 32_000, h: 32_000 };
    let at = |x: i64, y: i64| p(100_000 + x * 32_000, 100_000 + y * 32_000);
    assert_eq!(
        map.draw(1),
        vec![
            Sprite { src: cell(3, 2), dest: at(1, 0) },
            Sprite { src: cell(1, 0), dest: at(2, 0) },
            Sprite { src: cell(0, 1), dest: at(1, 1) },
            Sprite { src: cell(3, 2), dest: at(2, 1) },
        ]
    );
    assert_eq!(
        map.draw(2),
        vec![Sprite { src: cell(0, 0), dest: at(0, 0) }, Sprite { src: cell(1, 2), dest: at(0, 1) }]
    );
    assert_eq!(map.draw(0), vec![]);
    let outline = |x: i64, y: i64| Rect { x: at(x, y).x, y: at(x, y).y, w: 32_000, h: 32_000 };
    assert_eq!(map.draw_mesh(1), vec![outline(2, 0), outline(1, 1)]);
    assert_eq!(map.draw_mesh(2), vec![outline(0, 0), outline(0, 1)]);
}

#[test]
fn drawing_follows_the_map() {
    let mut map = load("2 2\n2\n").unwrap();
    map.update(v(0, 1));
    assert_eq!(map.draw(1)[0].dest, p(100_000, 96_000));
    assert_eq!(map.draw_mesh(1)[0].y, 96_000);
}

#[test]
fn a_map_at_the_rim_of_the_world_has_no_room() {
    let far = 0x2000_0000_0000_0000i64;
    let map = TileMap::load(b"1 1\n", p(far, -far), TILE).unwrap();
    assert!(map.is_roomy());
    let mut edge = TileMap::load(b"1 1\n0,0 1,1 0 0 1\n", p(far, far), v(0x10_0000, 0x10_0000)).unwrap();
    assert!(edge.is_roomy());
    edge.update(v(-1, -1));
    assert_eq!(edge.start(), p(far + 2828, far + 2828));
}

#[test]
fn what_a_map_can_be_loaded_with() {
    assert!(is_tile_size(TILE));
    assert!(is_tile_size(v(0, 0)));
    assert!(is_tile_size(v(0x10_0000, 0x10_0000)));
    assert!(!is_tile_size(v(0x10_0001, 1)));
    assert!(!is_tile_size(v(1, -1)));
    let far = 0x2000_0000_0000_0000i64;
    assert!(is_start(START));
    assert!(is_start(p(far, -far)));
    assert!(!is_start(p(far + 1, 0)));
    assert!(!is_start(p(0, -far - 1)));
}
