use robin_hood::geom::{Point, Vector};
use robin_hood::gold::Gold;

fn p(x: i64, y: i64) -> Point {
    Point { x, y }
}

#[test]
fn each_kind_has_its_worth() {
    assert_eq!(Gold::minted(1, p(0, 0), 0).value, 5);
    assert_eq!(Gold::minted(2, p(0, 0), 0).value, 15);
    assert_eq!(Gold::minted(3, p(0, 0), 0).value, 50);
    assert_eq!(Gold::minted(0, p(0, 0), 0).value, 0);
    assert_eq!(Gold::minted(4, p(0, 0), 0).value, 0);
    assert_eq!(Gold::minted(-1, p(0, 0), 0).value, 0);
    assert_eq!(
        Gold::minted(2, p(3, 4), 11),
        Gold { pos: p(3, 4), kind: 2, value: 15, handle: 11 }
    );
}

#[test]
fn new_gold_lies_in_its_room() {
    let low = p(100_000, 100_000);
    let high = p(164_000, 164_000);
    let mut kinds = [false; 4];
    let mut xs = Vec::new();
    for h in 0..200u64 {
        let g = Gold::new(low, high, h);
        assert!(low.x <= g.pos.x && g.pos.x < high.x);
        assert!(low.y <= g.pos.y && g.pos.y < high.y);
        assert!(1 <= g.kind && g.kind <= 3);
        assert_eq!(g.value, [0, 5, 15, 50][g.kind as usize]);
        assert_eq!(g.handle, h);
        kinds[g.kind as usize] = true;
        xs.push(g.pos.x);
    }
    // By chance: every kind turns up, and not every piece on one spot.
    assert_eq!(kinds, [false, true, true, true]);
    assert!(xs.iter().any(|x| *x != xs[0]));
    assert!(xs.iter().any(|x| *x != low.x));
}

#[test]
fn gold_moves_with_the_map() {
    let mut g = Gold::minted(3, p(10, 20), 1);
    assert_eq!(g.update(false, Vector { x: -4000, y: 2828 }), 0);
    assert_eq!(g, Gold { pos: p(-3990, 2848), kind: 3, value: 50, handle: 1 });
    assert_eq!(g.update(true, Vector { x: 0, y: 0 }), 50);
    assert_eq!(g.pos, p(-3990, 2848));
    assert_eq!(g.draw(), p(-3990, 2848));
}
