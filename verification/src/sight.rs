//! Putting the points that the player sees in order around the player.

use vstd::prelude::*;
use crate::geom::{Point, REACH, WORLD};

verus! {

/// In which part of the full turn a direction lies, counted from just past
/// the direction against the first axis: 0 for directions with a negative
/// second component, 1 for the direction along the first axis and for no
/// direction at all, 2 for directions with a positive second component, 3
/// for the direction against the first axis.
pub open spec fn sector(x: int, y: int) -> int {
    if y < 0 {
        0
    } else if y > 0 {
        2
    } else if x >= 0 {
        1
    } else {
        3
    }
}

/// Whether the angle of the direction `(ux, uy)` is smaller than that of
/// `(vx, vy)`, when angles are measured from the first axis toward the
/// second and run from just above minus a half turn up to a half turn.
pub open spec fn angle_less(ux: int, uy: int, vx: int, vy: int) -> bool {
    sector(ux, uy) < sector(vx, vy) || (sector(ux, uy) == sector(vx, vy) && ux * vy > uy * vx)
}

/// Whether `a` comes before `b` around `eye`: whether the direction from
/// `a` to `eye` has the smaller angle.
pub open spec fn turns_before(eye: Point, a: Point, b: Point) -> bool {
    angle_less(eye.x - a.x, eye.y - a.y, eye.x - b.x, eye.y - b.y)
}

/// `sorted` with `p` put in behind the last point that `p` does not come
/// before.
pub open spec fn inserted(sorted: Seq<Point>, p: Point, eye: Point) -> Seq<Point>
    decreases sorted.len(),
{
    if sorted.len() > 0 && turns_before(eye, p, sorted.last()) {
        inserted(sorted.drop_last(), p, eye).push(sorted.last())
    } else {
        sorted.push(p)
    }
}

/// The points of `hits` in order around `eye`, by rising angle; points at
/// the same angle keep the order they had.
pub open spec fn arranged(hits: Seq<Point>, eye: Point) -> Seq<Point>
    decreases hits.len(),
{
    if hits.len() == 0 {
        Seq::empty()
    } else {
        inserted(arranged(hits.drop_last(), eye), hits.last(), eye)
    }
}

/// Whether no point of `s` comes before a point that stands ahead of it.
pub open spec fn in_order(s: Seq<Point>, eye: Point) -> bool {
    forall|i: int, j: int| 0 <= i < j < s.len() ==> !turns_before(eye, s[j], s[i])
}

/// If `a` has a smaller angle than `c`, then any `b` has a larger angle
/// than `a` or a smaller one than `c`.
pub proof fn lemma_angle_between(ax: int, ay: int, bx: int, by: int, cx: int, cy: int)
    requires
        angle_less(ax, ay, cx, cy),
    ensures
        angle_less(ax, ay, bx, by) || angle_less(bx, by, cx, cy),
{
    let sa = sector(ax, ay);
    let sb = sector(bx, by);
    let sc = sector(cx, cy);
    if sa == sb && sb == sc {
        // All three lie strictly to one side of the first axis.
        assert(ay != 0 && by != 0 && cy != 0);
        if !(ax * by > ay * bx) && !(bx * cy > by * cx) {
            assert(false) by (nonlinear_arith)
                requires
                    (ay > 0 && by > 0 && cy > 0) || (ay < 0 && by < 0 && cy < 0),
                    ax * cy > ay * cx,
                    ax * by <= ay * bx,
                    bx * cy <= by * cx,
            {
                // From the last two: ax*by*cy <= ay*bx*cy <= ay*by*cx, and by
                // the first ax*cy*by > ay*cx*by.
                assert((ax * by) * cy <= (ay * bx) * cy || cy < 0);
                assert((bx * cy) * ay <= (by * cx) * ay || ay < 0);
                assert((ax * by) * cy >= (ay * bx) * cy || cy > 0);
                assert((bx * cy) * ay >= (by * cx) * ay || ay > 0);
                assert((ax * cy) * by > (ay * cx) * by || by < 0);
                assert((ax * cy) * by < (ay * cx) * by || by > 0);
                assert((ax * by) * cy == (ax * cy) * by);
                assert((ay * bx) * cy == (bx * cy) * ay);
                assert((by * cx) * ay == (ay * cx) * by);
            }
        }
    }
}

/// Putting a point into an ordered row at its place leaves the row ordered,
/// and puts the point at the place that `place` names.
pub proof fn lemma_inserted(s: Seq<Point>, p: Point, eye: Point, place: int)
    requires
        0 <= place <= s.len(),
        forall|j: int| place <= j < s.len() ==> turns_before(eye, p, #[trigger] s[j]),
        place > 0 ==> !turns_before(eye, p, s[place - 1]),
    ensures
        inserted(s, p, eye) == s.insert(place, p),
    decreases s.len(),
{
    if s.len() > 0 && turns_before(eye, p, s.last()) {
        assert(place < s.len());
        let t = s.drop_last();
        lemma_inserted(t, p, eye, place);
        assert(t.insert(place, p).push(s.last()) =~= s.insert(place, p));
    } else {
        if place < s.len() {
            assert(turns_before(eye, p, s[s.len() - 1]));
        }
        assert(s.push(p) =~= s.insert(place, p));
    }
}

/// Where `inserted` puts a point: behind all points that it does not come
/// before, and ahead of all it comes before, if the row is in order.
pub proof fn lemma_inserted_in_order(s: Seq<Point>, p: Point, eye: Point)
    requires
        in_order(s, eye),
    ensures
        in_order(inserted(s, p, eye), eye),
        inserted(s, p, eye).to_multiset() == s.to_multiset().insert(p),
        inserted(s, p, eye).len() == s.len() + 1,
    decreases s.len(),
{
    broadcast use vstd::seq_lib::group_to_multiset_ensures;

    if s.len() > 0 && turns_before(eye, p, s.last()) {
        let t = s.drop_last();
        let last = s.last();
        assert forall|i: int, j: int| 0 <= i < j < t.len() implies !turns_before(eye, t[j], t[i]) by {
            assert(t[i] == s[i] && t[j] == s[j]);
        }
        lemma_inserted_in_order(t, p, eye);
        let r = inserted(t, p, eye);
        let out = r.push(last);
        assert(s =~= t.push(last));
        assert(out.to_multiset() =~= s.to_multiset().insert(p));
        // Every point of `r` is `p` or a point of `t`; none comes after `last`.
        assert forall|i: int, j: int| 0 <= i < j < out.len() implies !turns_before(
            eye,
            out[j],
            out[i],
        ) by {
            if j < r.len() {
                assert(out[i] == r[i] && out[j] == r[j]);
            } else {
                assert(out[j] == last);
                assert(out[i] == r[i]);
                assert(r.to_multiset().count(r[i]) > 0);
                if r[i] == p {
                    if turns_before(eye, last, p) {
                        lemma_angle_between(
                            eye.x - last.x,
                            eye.y - last.y,
                            eye.x - last.x,
                            eye.y - last.y,
                            eye.x - p.x,
                            eye.y - p.y,
                        );
                        lemma_not_both(eye, p, last);
                    }
                } else {
                    assert(t.to_multiset().count(r[i]) > 0);
                    assert(t.contains(r[i]));
                    let k = choose|k: int| 0 <= k < t.len() && t[k] == r[i];
                    assert(s[k] == r[i]);
                    assert(!turns_before(eye, s[s.len() - 1], s[k]));
                }
            }
        }
    } else {
        let out = s.push(p);
        assert(out.to_multiset() =~= s.to_multiset().insert(p));
        assert forall|i: int, j: int| 0 <= i < j < out.len() implies !turns_before(
            eye,
            out[j],
            out[i],
        ) by {
            if j < s.len() {
                assert(out[i] == s[i] && out[j] == s[j]);
            } else {
                // `p` does not come before the last point, and the last
                // point comes before none ahead of it.
                assert(out[j] == p && out[i] == s[i]);
                if i < s.len() - 1 && turns_before(eye, p, s[i]) {
                    let l = s.last();
                    lemma_angle_between(
                        eye.x - p.x,
                        eye.y - p.y,
                        eye.x - l.x,
                        eye.y - l.y,
                        eye.x - s[i].x,
                        eye.y - s[i].y,
                    );
                    assert(!turns_before(eye, s[s.len() - 1], s[i]));
                }
            }
        }
    }
}

/// Of two points, at most one comes before the other.
pub proof fn lemma_not_both(eye: Point, a: Point, b: Point)
    ensures
        !(turns_before(eye, a, b) && turns_before(eye, b, a)),
{
}

/// The arranged points are the given points, each as often as it was
/// given, and they are in order.
pub proof fn lemma_arranged(hits: Seq<Point>, eye: Point)
    ensures
        in_order(arranged(hits, eye), eye),
        arranged(hits, eye).to_multiset() == hits.to_multiset(),
        arranged(hits, eye).len() == hits.len(),
    decreases hits.len(),
{
    broadcast use vstd::seq_lib::group_to_multiset_ensures;

    if hits.len() > 0 {
        lemma_arranged(hits.drop_last(), eye);
        lemma_inserted_in_order(arranged(hits.drop_last(), eye), hits.last(), eye);
        assert(hits =~= hits.drop_last().push(hits.last()));
    }
}

/// Whether `p` lies in the world or within one tick's movement of it.
pub open spec fn in_sight(p: Point) -> bool {
    p.clear_by(-REACH)
}

/// Whether `p` lies in the world or within one tick's movement of it.
pub fn is_in_sight(p: Point) -> (r: bool)
    ensures
        r == in_sight(p),
{
    -WORLD - REACH <= p.x && p.x <= WORLD + REACH && -WORLD - REACH <= p.y && p.y <= WORLD + REACH
}

/// Whether `a` comes before `b` around `eye`.
pub fn comes_before(eye: Point, a: Point, b: Point) -> (r: bool)
    requires
        in_sight(eye),
        in_sight(a),
        in_sight(b),
    ensures
        r == turns_before(eye, a, b),
{
    let ux: i128 = eye.x as i128 - a.x as i128;
    let uy: i128 = eye.y as i128 - a.y as i128;
    let vx: i128 = eye.x as i128 - b.x as i128;
    let vy: i128 = eye.y as i128 - b.y as i128;
    let su: u8 = if uy < 0 { 0 } else if uy > 0 { 2 } else if ux >= 0 { 1 } else { 3 };
    let sv: u8 = if vy < 0 { 0 } else if vy > 0 { 2 } else if vx >= 0 { 1 } else { 3 };
    if su != sv {
        su < sv
    } else {
        assert(-0x9000_0000_0000_0000 * 0x9000_0000_0000_0000 <= ux * vy <= 0x9000_0000_0000_0000
            * 0x9000_0000_0000_0000 && -0x9000_0000_0000_0000 * 0x9000_0000_0000_0000 <= uy * vx
            <= 0x9000_0000_0000_0000 * 0x9000_0000_0000_0000) by (nonlinear_arith)
            requires
                -0x9000_0000_0000_0000 <= ux <= 0x9000_0000_0000_0000,
                -0x9000_0000_0000_0000 <= uy <= 0x9000_0000_0000_0000,
                -0x9000_0000_0000_0000 <= vx <= 0x9000_0000_0000_0000,
                -0x9000_0000_0000_0000 <= vy <= 0x9000_0000_0000_0000,
        ;
        ux * vy > uy * vx
    }
}

/// The points of `hits` in order around `eye`.
pub fn arrange(hits: &Vec<Point>, eye: Point) -> (out: Vec<Point>)
    requires
        in_sight(eye),
        forall|i: int| 0 <= i < hits@.len() ==> in_sight(#[trigger] hits@[i]),
    ensures
        out@ == arranged(hits@, eye),
        in_order(out@, eye),
        out@.to_multiset() == hits@.to_multiset(),
{
    let mut out: Vec<Point> = Vec::new();
    let mut i: usize = 0;
    proof {
        assert(hits@.take(0) =~= Seq::<Point>::empty());
    }
    while i < hits.len()
        invariant
            i <= hits.len(),
            in_sight(eye),
            forall|k: int| 0 <= k < hits@.len() ==> in_sight(#[trigger] hits@[k]),
            forall|k: int| 0 <= k < out@.len() ==> in_sight(#[trigger] out@[k]),
            out@ == arranged(hits@.take(i as int), eye),
            out@.len() == i,
        decreases hits.len() - i,
    {
        let p = hits[i];
        let mut k: usize = out.len();
        while k > 0 && comes_before(eye, p, out[k - 1])
            invariant
                k <= out.len(),
                in_sight(eye),
                in_sight(p),
                forall|j: int| 0 <= j < out@.len() ==> in_sight(#[trigger] out@[j]),
                forall|j: int| k <= j < out@.len() ==> turns_before(eye, p, #[trigger] out@[j]),
            decreases k,
        {
            k -= 1;
        }
        proof {
            lemma_inserted(out@, p, eye, k as int);
            assert(hits@.take(i + 1).drop_last() =~= hits@.take(i as int));
        }
        out.insert(k, p);
        i += 1;
    }
    proof {
        assert(hits@.take(i as int) =~= hits@);
        lemma_arranged(hits@, eye);
    }
    out
}

} // verus!
