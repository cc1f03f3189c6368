//! Pieces of gold.

use vstd::prelude::*;
use crate::chance::draw_between;
use crate::geom::{Point, Vector, REACH};
use crate::guard::in_rect;

verus! {

/// A piece of gold on the map.
#[derive(Clone, Copy, Debug, PartialEq, Eq, Structural)]
pub struct Gold {
    pub pos: Point,
    /// Which of the three kinds of piece this is: 1, 2 or 3.
    pub kind: i32,
    pub value: i32,
    /// The name of the piece's collider.
    pub handle: u64,
}

/// What a piece of each kind is worth.
pub open spec fn worth(kind: int) -> int {
    if kind == 1 {
        5
    } else if kind == 2 {
        15
    } else if kind == 3 {
        50
    } else {
        0
    }
}

impl Gold {
    /// The piece after the map has moved by `map_vel`.
    pub open spec fn moved(self, map_vel: Vector) -> Gold {
        Gold { pos: self.pos.plus(map_vel), ..self }
    }

    /// A piece of kind `kind` at `pos`.
    pub fn minted(kind: i32, pos: Point, handle: u64) -> (g: Gold)
        ensures
            g == (Gold { pos, kind, value: worth(kind as int) as i32, handle }),
    {
        let value: i32 = match kind {
            1 => 5,
            2 => 15,
            3 => 50,
            _ => 0,
        };
        Gold { pos, kind, value, handle }
    }

    /// A piece of a kind drawn by chance, at a place drawn by chance in the
    /// room between the corners `point1` and `point2`.
    pub fn new(point1: Point, point2: Point, handle1: u64) -> (g: Gold)
        requires
            point1.x < point2.x,
            point1.y < point2.y,
        ensures
            1 <= g.kind <= 3,
            g.value == worth(g.kind as int),
            in_rect(g.pos, point1, point2),
            g.handle == handle1,
    {
        let num = draw_between(1, 4);
        let x = draw_between(point1.x, point2.x);
        let y = draw_between(point1.y, point2.y);
        Gold::minted(num as i32, Point { x, y }, handle1)
    }

    /// One tick of the piece: it moves with the map. Returns what the player
    /// gets from it in this tick: its value if the player touches it, else
    /// nothing.
    pub fn update(&mut self, touched: bool, map_vel: Vector) -> (gain: i32)
        requires
            old(self).pos.has_room(),
            map_vel.within(REACH as int),
        ensures
            *final(self) == old(self).moved(map_vel),
            gain == if touched { old(self).value } else { 0 },
    {
        self.pos = self.pos.offset(map_vel);
        if touched {
            self.value
        } else {
            0
        }
    }

    /// Where to draw the piece.
    pub fn draw(&self) -> (at: Point)
        ensures
            at == self.pos,
    {
        self.pos
    }
}

} // verus!
