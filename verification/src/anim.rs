//! Frame cycling over a horizontal strip of equal sprite cells.

use vstd::prelude::*;
use crate::geom::{Point, Rect, UNIT};

verus! {

/// Which way an actor looks or is held; `Null` is neither.
#[derive(Clone, Copy, Debug, PartialEq, Eq, Structural)]
pub enum Direction {
    Up,
    Down,
    Left,
    Right,
    Null,
}

/// Cells in a strip.
pub const FRAMES: u32 = 7;

/// Width of a strip.
pub const STRIP_WIDTH: i64 = 224 * UNIT;

/// Height of a strip, and of each of its cells.
pub const STRIP_HEIGHT: i64 = 32 * UNIT;

/// Width of one cell of a strip.
pub const CELL_WIDTH: i64 = 32 * UNIT;

/// One image to draw: the part of a sheet to take, and where to put it.
#[derive(Clone, Copy, Debug, PartialEq, Eq, Structural)]
pub struct Sprite {
    pub src: Rect,
    pub dest: Point,
}

/// The cell of a strip that shows frame `frame`.
pub open spec fn cell(frame: nat) -> Rect {
    Rect { x: (frame * CELL_WIDTH) as i64, y: 0, w: CELL_WIDTH, h: STRIP_HEIGHT }
}

/// A cursor over the frames of a strip. Its view is the index of the current
/// frame, always below `FRAMES`.
#[derive(Clone, Copy, Debug)]
pub struct Animation {
    curr_frame: u32,
    src_rect: Rect,
}

impl View for Animation {
    type V = nat;

    closed spec fn view(&self) -> nat {
        self.curr_frame as nat
    }
}

impl Animation {
    #[verifier::type_invariant]
    spec fn inv(self) -> bool {
        self.curr_frame < FRAMES && self.src_rect == cell(self.curr_frame as nat)
    }

    /// A cursor on the first frame.
    pub fn new() -> (a: Animation)
        ensures
            a@ == 0,
        no_unwind
    {
        Animation { curr_frame: 0, src_rect: Rect { x: 0, y: 0, w: CELL_WIDTH, h: STRIP_HEIGHT } }
    }

    /// Go back to the first frame.
    pub fn reset(&mut self)
        ensures
            final(self)@ == 0,
        no_unwind
    {
        *self = Animation::new();
    }

    /// Go to the next frame, and from the last to the first.
    pub fn next_frame(&mut self)
        ensures
            final(self)@ == (old(self)@ + 1) % (FRAMES as nat),
        no_unwind
    {
        proof {
            use_type_invariant(&*self);
        }
        let next: u32 = (self.curr_frame + 1) % FRAMES;
        *self = Animation {
            curr_frame: next,
            src_rect: Rect { x: next as i64 * CELL_WIDTH, y: 0, w: CELL_WIDTH, h: STRIP_HEIGHT },
        };
    }

    /// The index of the current frame.
    pub fn frame(&self) -> (f: u32)
        ensures
            f == self@,
            f < FRAMES,
    {
        proof {
            use_type_invariant(self);
        }
        self.curr_frame
    }

    /// The current frame, to be drawn at `pos`.
    pub fn draw(&self, pos: Point) -> (s: Sprite)
        ensures
            s == (Sprite { src: cell(self@), dest: pos }),
    {
        proof {
            use_type_invariant(self);
        }
        Sprite { src: self.src_rect, dest: pos }
    }
}

} // verus!
