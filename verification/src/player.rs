//! The player: walking as the keys ask, stopping at walls and sliding along
//! them, and keeping the score.
//!
//! The collision world is not part of this crate. Before each tick its
//! owner asks the player where to probe (`hor_probe`, `ver_probe`), moves the
//! player's collider there, and reports what the world answered in a `Sense`.

use vstd::prelude::*;
use crate::anim::{cell, Animation, Direction, FRAMES};
use crate::geom::{scale, scaled, Point, Rect, Vector, REACH, UNIT, WORLD};
use crate::score::Score;
use crate::sight::{arrange, arranged, in_order, in_sight};

verus! {

/// How far the player walks in one tick.
pub const PLAYER_SPEED: i64 = 4 * UNIT;

/// The length along each axis, in thousandths, of a unit vector that points
/// diagonally.
pub const DIAGONAL: i64 = 707;

/// A contact at least this deep is taken for noise and ignored.
pub const MAX_DEPTH: i64 = 13 * UNIT;

/// Where the player starts.
pub const START_X: i64 = 64 * UNIT;

pub const START_Y: i64 = 64 * UNIT;

/// From the player's position to the centre of its collider.
pub const SHAPE_DX: i64 = -1500;

pub const SHAPE_DY: i64 = 8 * UNIT;

/// Width and height of the collider.
pub const SHAPE_WIDTH: i64 = 24 * UNIT;

pub const SHAPE_HEIGHT: i64 = 16 * UNIT;

/// From the player's position to the point from which it looks around.
pub const EYE_DX: i64 = 5 * UNIT;

pub const EYE_DY: i64 = 4 * UNIT;

/// One of the four direction keys.
#[derive(Clone, Copy, Debug, PartialEq, Eq, Structural)]
pub enum Key {
    Up,
    Down,
    Left,
    Right,
}

/// Which direction keys are held down.
#[derive(Clone, Copy, Debug, PartialEq, Eq, Structural)]
pub struct Keys {
    pub up: bool,
    pub down: bool,
    pub left: bool,
    pub right: bool,
}

/// The deepest contact of two colliders: how far they overlap, and the unit
/// normal of the contact, which has length `UNIT`.
#[derive(Clone, Copy, Debug, PartialEq, Eq, Structural)]
pub struct Contact {
    pub depth: i64,
    pub normal: Vector,
}

/// What the collision world answered in one tick.
#[derive(Clone, Copy, Debug, PartialEq, Eq, Structural)]
pub struct Sense {
    /// Whether the collider touches the map at the place `hor_probe` gave.
    pub hor_touch: bool,
    /// Whether the collider touches the map at the place `ver_probe` gave.
    pub ver_touch: bool,
    /// The contact of collider and map with the collider at the player's
    /// position, if they touch.
    pub contact: Option<Contact>,
}

/// What to draw for the player.
#[derive(Clone, Copy, Debug, PartialEq, Eq, Structural)]
pub struct Figure {
    /// The strip to draw from; `Null` is the image of the player at rest.
    pub sheet: Direction,
    /// The part of the strip; `None` is the whole image.
    pub src: Option<Rect>,
    pub dest: Point,
}

/// The frame after `frame`.
pub open spec fn next(frame: nat) -> nat {
    (frame + 1) % (FRAMES as nat)
}

/// Whether both components of `dir` are -1, 0 or 1.
pub open spec fn is_intent(dir: Vector) -> bool {
    -1 <= dir.x <= 1 && -1 <= dir.y <= 1
}

/// One tick's movement at speed `spd` in the direction of the intent `dir`:
/// the whole speed along one axis, or the same distance along a diagonal.
pub open spec fn stride(dir: Vector, spd: i64) -> Vector {
    let along: int = if dir.x != 0 && dir.y != 0 {
        scaled(spd as int, DIAGONAL as int)
    } else {
        spd as int
    };
    Vector { x: (dir.x * along) as i64, y: (dir.y * along) as i64 }
}

/// Where the collider's centre lies when the player is at `p`.
pub open spec fn shape_at(p: Point) -> Point {
    Point { x: (p.x + SHAPE_DX) as i64, y: (p.y + SHAPE_DY) as i64 }
}

/// Whether `p` lies no farther than a contact's depth from where a point has
/// room to move.
spec fn pushed(p: Point) -> bool {
    &&& -WORLD + REACH - MAX_DEPTH <= p.x <= WORLD - REACH + MAX_DEPTH
    &&& -WORLD + REACH - MAX_DEPTH <= p.y <= WORLD - REACH + MAX_DEPTH
}

/// The player's state.
pub struct PlayerView {
    pub pos: Point,
    /// Where the keys ask the player to go.
    pub direction: Vector,
    /// `Up` or `Down` while a wall blocks the player that way.
    pub collision_ver: Direction,
    /// `Left` or `Right` while a wall blocks the player that way.
    pub collision_hor: Direction,
    pub walking: bool,
    /// The current frame of each strip.
    pub run_left: nat,
    pub run_right: nat,
    pub run_down: nat,
    pub run_up: nat,
    pub animation_state: Direction,
    pub col_handle: u64,
    /// The corners of what the player sees, in order around the player.
    pub visibility: Seq<Point>,
    pub score: i32,
}

impl PlayerView {
    /// What holds of a player at all times.
    pub open spec fn wf(self) -> bool {
        &&& self.pos.in_world()
        &&& is_intent(self.direction)
        &&& (self.collision_hor == Direction::Null || self.collision_hor == Direction::Left
            || self.collision_hor == Direction::Right)
        &&& (self.collision_ver == Direction::Null || self.collision_ver == Direction::Up
            || self.collision_ver == Direction::Down)
    }

    /// A direction key goes down: the player wants to go that way, unless a
    /// wall blocks it there.
    pub open spec fn key_down(self, key: Key) -> PlayerView {
        match key {
            Key::Up => if self.collision_ver != Direction::Up {
                PlayerView {
                    direction: Vector { x: self.direction.x, y: -1i64 },
                    animation_state: Direction::Up,
                    ..self
                }
            } else {
                self
            },
            Key::Down => if self.collision_ver != Direction::Down {
                PlayerView {
                    direction: Vector { x: self.direction.x, y: 1 },
                    animation_state: Direction::Down,
                    ..self
                }
            } else {
                self
            },
            Key::Left => if self.collision_hor != Direction::Left {
                PlayerView {
                    direction: Vector { x: -1i64, y: self.direction.y },
                    animation_state: Direction::Left,
                    ..self
                }
            } else {
                self
            },
            Key::Right => if self.collision_hor != Direction::Right {
                PlayerView {
                    direction: Vector { x: 1, y: self.direction.y },
                    animation_state: Direction::Right,
                    ..self
                }
            } else {
                self
            },
        }
    }

    /// A direction key comes up: the player stops going that way, if it did.
    pub open spec fn key_up(self, key: Key) -> PlayerView {
        let d = self.direction;
        match key {
            Key::Up => if d.y == -1 {
                PlayerView { direction: Vector { x: d.x, y: 0 }, ..self }
            } else {
                self
            },
            Key::Down => if d.y == 1 {
                PlayerView { direction: Vector { x: d.x, y: 0 }, ..self }
            } else {
                self
            },
            Key::Left => if d.x == -1 {
                PlayerView { direction: Vector { x: 0, y: d.y }, ..self }
            } else {
                self
            },
            Key::Right => if d.x == 1 {
                PlayerView { direction: Vector { x: 0, y: d.y }, ..self }
            } else {
                self
            },
        }
    }

    /// The strip named by the animation state moves on by one frame.
    pub open spec fn advance_frame(self) -> PlayerView {
        match self.animation_state {
            Direction::Right => PlayerView { run_right: next(self.run_right), ..self },
            Direction::Left => PlayerView { run_left: next(self.run_left), ..self },
            Direction::Up => PlayerView { run_up: next(self.run_up), ..self },
            Direction::Down => PlayerView { run_down: next(self.run_down), ..self },
            Direction::Null => self,
        }
    }

    /// The start of a tick. Without an intent the player stands, and all
    /// strips rewind. With one it walks: an intent along one axis picks the
    /// strip, a diagonal one keeps the strip it had, and that strip moves on.
    pub open spec fn animate(self) -> PlayerView {
        let d = self.direction;
        if d.x == 0 && d.y == 0 {
            PlayerView {
                walking: false,
                animation_state: Direction::Null,
                run_left: 0,
                run_right: 0,
                run_down: 0,
                run_up: 0,
                ..self
            }
        } else {
            let state = if d.x == 1 && d.y == 0 {
                Direction::Right
            } else if d.x == -1 && d.y == 0 {
                Direction::Left
            } else if d.x == 0 && d.y == 1 {
                Direction::Down
            } else if d.x == 0 && d.y == -1 {
                Direction::Up
            } else {
                self.animation_state
            };
            (PlayerView { walking: true, animation_state: state, ..self }).advance_frame()
        }
    }

    /// Where the player would be after one tick's walk.
    pub open spec fn pos_from_move(self) -> Point {
        self.pos.plus(stride(self.direction, PLAYER_SPEED))
    }

    /// Whether to probe along the horizontal axis: a wall blocks the player
    /// to one side, and the key for that side is held.
    pub open spec fn hor_due(self, keys: Keys) -> bool {
        (self.collision_hor == Direction::Left && keys.left) || (self.collision_hor
            == Direction::Right && keys.right)
    }

    /// The intent that the horizontal probe tries.
    pub open spec fn hor_try(self) -> Vector {
        Vector { x: if self.collision_hor == Direction::Left { -1i64 } else { 1i64 }, y: self.direction.y }
    }

    /// The horizontal block is lifted, and the tried intent taken, when the
    /// probe was due and met nothing.
    pub open spec fn settle_hor(self, keys: Keys, touch: bool) -> PlayerView {
        if self.hor_due(keys) && !touch {
            PlayerView { collision_hor: Direction::Null, direction: self.hor_try(), ..self }
        } else {
            self
        }
    }

    /// Whether to probe along the vertical axis.
    pub open spec fn ver_due(self, keys: Keys) -> bool {
        (self.collision_ver == Direction::Up && keys.up) || (self.collision_ver
            == Direction::Down && keys.down)
    }

    /// The intent that the vertical probe tries.
    pub open spec fn ver_try(self) -> Vector {
        Vector { x: self.direction.x, y: if self.collision_ver == Direction::Up { -1i64 } else { 1i64 } }
    }

    /// The vertical block is lifted, and the tried intent taken, when the
    /// probe was due and met nothing.
    pub open spec fn settle_ver(self, keys: Keys, touch: bool) -> PlayerView {
        if self.ver_due(keys) && !touch {
            PlayerView { collision_ver: Direction::Null, direction: self.ver_try(), ..self }
        } else {
            self
        }
    }

    /// A block is lifted when the player wants to go the other way.
    pub open spec fn release(self) -> PlayerView {
        let d = self.direction;
        let hor = if (self.collision_hor == Direction::Right && d.x == -1) || (self.collision_hor
            == Direction::Left && d.x == 1) {
            Direction::Null
        } else {
            self.collision_hor
        };
        let ver = if (self.collision_ver == Direction::Down && d.y == -1) || (self.collision_ver
            == Direction::Up && d.y == 1) {
            Direction::Null
        } else {
            self.collision_ver
        };
        PlayerView { collision_hor: hor, collision_ver: ver, ..self }
    }

    /// The answer to a contact with the map. Without contact nothing blocks
    /// the player. A contact of a depth from 0 up to `MAX_DEPTH`, with a
    /// normal along an axis and against the intent, blocks the player on
    /// that axis, ends the intent along it, and pushes the player out by the
    /// depth; the horizontal axis is looked at first, and one axis at most is
    /// corrected. Any other contact changes nothing.
    pub open spec fn resolve(self, contact: Option<Contact>) -> PlayerView {
        let d = self.direction;
        let p = self.pos;
        match contact {
            None => PlayerView {
                collision_ver: Direction::Null,
                collision_hor: Direction::Null,
                ..self
            },
            Some(c) => if 0 <= c.depth < MAX_DEPTH {
                if c.normal.x == -UNIT && d.x == 1 {
                    PlayerView {
                        collision_hor: Direction::Right,
                        direction: Vector { x: 0, y: d.y },
                        pos: Point { x: (p.x - c.depth) as i64, y: p.y },
                        ..self
                    }
                } else if c.normal.x == UNIT && d.x == -1 {
                    PlayerView {
                        collision_hor: Direction::Left,
                        direction: Vector { x: 0, y: d.y },
                        pos: Point { x: (p.x + c.depth) as i64, y: p.y },
                        ..self
                    }
                } else if c.normal.y == -UNIT && d.y == 1 {
                    PlayerView {
                        collision_ver: Direction::Down,
                        direction: Vector { x: d.x, y: 0 },
                        pos: Point { x: p.x, y: (p.y - c.depth) as i64 },
                        ..self
                    }
                } else if c.normal.y == UNIT && d.y == -1 {
                    PlayerView {
                        collision_ver: Direction::Up,
                        direction: Vector { x: d.x, y: 0 },
                        pos: Point { x: p.x, y: (p.y + c.depth) as i64 },
                        ..self
                    }
                } else {
                    self
                }
            } else {
                self
            },
        }
    }

    /// The player walks one tick's way.
    pub open spec fn advance(self) -> PlayerView {
        PlayerView { pos: self.pos_from_move(), ..self }
    }

    /// One tick: the strips move; a walking player then probes its blocks,
    /// lets go of those it walks away from, answers the contact and walks.
    pub open spec fn update(self, keys: Keys, sense: Sense) -> PlayerView {
        let a = self.animate();
        if !a.walking {
            a
        } else {
            a.settle_hor(keys, sense.hor_touch).settle_ver(keys, sense.ver_touch).release().resolve(
                sense.contact,
            ).advance()
        }
    }

    /// The point from which the player looks around.
    pub open spec fn eye(self) -> Point {
        self.pos.plus(Vector { x: EYE_DX, y: EYE_DY })
    }

    /// The player after looking around: it sees the points of `hits`, in
    /// order around the point it looks from.
    pub open spec fn looked(self, hits: Seq<Point>) -> PlayerView {
        PlayerView { visibility: arranged(hits, self.eye()), ..self }
    }

    /// What to draw for the player: the current frame of the strip for the
    /// way it walks, or the image of the player at rest.
    pub open spec fn figure(self) -> Figure {
        match self.animation_state {
            Direction::Right => Figure {
                sheet: Direction::Right,
                src: Some(cell(self.run_right)),
                dest: self.pos,
            },
            Direction::Left => Figure {
                sheet: Direction::Left,
                src: Some(cell(self.run_left)),
                dest: self.pos,
            },
            Direction::Up => Figure {
                sheet: Direction::Up,
                src: Some(cell(self.run_up)),
                dest: self.pos,
            },
            Direction::Down => Figure {
                sheet: Direction::Down,
                src: Some(cell(self.run_down)),
                dest: self.pos,
            },
            Direction::Null => Figure { sheet: Direction::Null, src: None, dest: self.pos },
        }
    }

    /// The outline of the collider.
    pub open spec fn outline(self) -> Rect {
        Rect {
            x: shape_at(self.pos).x,
            y: shape_at(self.pos).y,
            w: SHAPE_WIDTH,
            h: SHAPE_HEIGHT,
        }
    }

    /// Where the collider must be put for the horizontal probe of the coming
    /// tick, if that tick makes one.
    pub open spec fn hor_probe(self, keys: Keys) -> Option<Point> {
        let a = self.animate();
        if a.walking && a.hor_due(keys) {
            Some(shape_at(a.pos.plus(stride(a.hor_try(), PLAYER_SPEED))))
        } else {
            None
        }
    }

    /// Where the collider must be put for the vertical probe of the coming
    /// tick, if that tick makes one, given the answer to the horizontal one.
    pub open spec fn ver_probe(self, keys: Keys, hor_touch: bool) -> Option<Point> {
        let a = self.animate().settle_hor(keys, hor_touch);
        if a.walking && a.ver_due(keys) {
            Some(shape_at(a.pos.plus(stride(a.ver_try(), PLAYER_SPEED))))
        } else {
            None
        }
    }
}

/// The player.
#[derive(Debug)]
pub struct Player {
    pos: Point,
    direction: Vector,
    collision_ver: Direction,
    collision_hor: Direction,
    walking: bool,
    run_left: Animation,
    run_right: Animation,
    run_down: Animation,
    run_up: Animation,
    animation_state: Direction,
    col_handle: u64,
    visibility: Vec<Point>,
    score: i32,
}

impl View for Player {
    type V = PlayerView;

    closed spec fn view(&self) -> PlayerView {
        PlayerView {
            pos: self.pos,
            direction: self.direction,
            collision_ver: self.collision_ver,
            collision_hor: self.collision_hor,
            walking: self.walking,
            run_left: self.run_left@,
            run_right: self.run_right@,
            run_down: self.run_down@,
            run_up: self.run_up@,
            animation_state: self.animation_state,
            col_handle: self.col_handle,
            visibility: self.visibility@,
            score: self.score,
        }
    }
}

/// One tick's movement at speed `spd` in the direction of the intent `dir`.
pub fn stride_of(dir: Vector, spd: i64) -> (v: Vector)
    requires
        is_intent(dir),
        0 <= spd <= REACH,
    ensures
        v == stride(dir, spd),
        v.within(spd as int),
{
    let along: i64 = if dir.x != 0 && dir.y != 0 {
        proof {
            crate::geom::lemma_scaled_bound(spd as int, DIAGONAL as int);
        }
        scale(spd, DIAGONAL)
    } else {
        spd
    };
    assert(-along <= dir.x * along <= along && -along <= dir.y * along <= along) by (nonlinear_arith)
        requires
            -1 <= dir.x <= 1,
            -1 <= dir.y <= 1,
            0 <= along,
    ;
    Vector { x: dir.x * along, y: dir.y * along }
}

impl Player {
    #[verifier::type_invariant]
    spec fn inv(self) -> bool {
        self@.wf()
    }

    /// A player at the start, standing, with no score, whose collider goes
    /// by `handle`.
    pub fn new(handle: u64) -> (p: Player)
        ensures
            p@ == (PlayerView {
                pos: Point { x: START_X, y: START_Y },
                direction: Vector { x: 0, y: 0 },
                collision_ver: Direction::Null,
                collision_hor: Direction::Null,
                walking: false,
                run_left: 0,
                run_right: 0,
                run_down: 0,
                run_up: 0,
                animation_state: Direction::Null,
                col_handle: handle,
                visibility: Seq::<Point>::empty(),
                score: 0,
            }),
            p@.wf(),
    {
        Player {
            pos: Point { x: START_X, y: START_Y },
            direction: Vector { x: 0, y: 0 },
            collision_ver: Direction::Null,
            collision_hor: Direction::Null,
            walking: false,
            run_left: Animation::new(),
            run_right: Animation::new(),
            run_down: Animation::new(),
            run_up: Animation::new(),
            animation_state: Direction::Null,
            col_handle: handle,
            visibility: Vec::new(),
            score: 0,
        }
    }

    /// Where the collider's centre lies with the player at `p`, or where the
    /// player is for `None`.
    pub fn shape_pos(&self, p: Option<Point>) -> (c: Point)
        requires
            p matches Some(d) ==> d.in_world(),
        ensures
            c == shape_at(
                match p {
                    Some(d) => d,
                    None => self@.pos,
                },
            ),
    {
        proof {
            use_type_invariant(self);
        }
        match p {
            Some(d) => Point { x: d.x + SHAPE_DX, y: d.y + SHAPE_DY },
            None => Point { x: self.pos.x + SHAPE_DX, y: self.pos.y + SHAPE_DY },
        }
    }

    /// A direction key goes down.
    pub fn key_down(&mut self, key: Key)
        ensures
            final(self)@ == old(self)@.key_down(key),
            final(self)@.wf(),
    {
        proof {
            use_type_invariant(&*self);
        }
        match key {
            Key::Up => if self.collision_ver != Direction::Up {
                self.direction = Vector { x: self.direction.x, y: -1 };
                self.animation_state = Direction::Up;
            },
            Key::Down => if self.collision_ver != Direction::Down {
                self.direction = Vector { x: self.direction.x, y: 1 };
                self.animation_state = Direction::Down;
            },
            Key::Left => if self.collision_hor != Direction::Left {
                self.direction = Vector { x: -1, y: self.direction.y };
                self.animation_state = Direction::Left;
            },
            Key::Right => if self.collision_hor != Direction::Right {
                self.direction = Vector { x: 1, y: self.direction.y };
                self.animation_state = Direction::Right;
            },
        }
    }

    /// A direction key comes up.
    pub fn key_up(&mut self, key: Key)
        ensures
            final(self)@ == old(self)@.key_up(key),
            final(self)@.wf(),
    {
        proof {
            use_type_invariant(&*self);
        }
        match key {
            Key::Up => if self.direction.y == -1 {
                self.direction = Vector { x: self.direction.x, y: 0 };
            },
            Key::Down => if self.direction.y == 1 {
                self.direction = Vector { x: self.direction.x, y: 0 };
            },
            Key::Left => if self.direction.x == -1 {
                self.direction = Vector { x: 0, y: self.direction.y };
            },
            Key::Right => if self.direction.x == 1 {
                self.direction = Vector { x: 0, y: self.direction.y };
            },
        }
    }

    /// The start of a tick: the strips move.
    fn animate(&mut self)
        ensures
            final(self)@ == old(self)@.animate(),
    {
        proof {
            use_type_invariant(&*self);
        }
        let d = self.direction;
        if d.x == 0 && d.y == 0 {
            self.walking = false;
            self.animation_state = Direction::Null;
            self.run_right.reset();
            self.run_left.reset();
            self.run_down.reset();
            self.run_up.reset();
        } else {
            if d.x == 1 && d.y == 0 {
                self.animation_state = Direction::Right;
            } else if d.x == -1 && d.y == 0 {
                self.animation_state = Direction::Left;
            } else if d.x == 0 && d.y == 1 {
                self.animation_state = Direction::Down;
            } else if d.x == 0 && d.y == -1 {
                self.animation_state = Direction::Up;
            }
            self.walking = true;
            match self.animation_state {
                Direction::Right => self.run_right.next_frame(),
                Direction::Left => self.run_left.next_frame(),
                Direction::Up => self.run_up.next_frame(),
                Direction::Down => self.run_down.next_frame(),
                Direction::Null => (),
            }
        }
    }

    /// The answer to the horizontal probe.
    fn settle_hor(&mut self, keys: Keys, touch: bool)
        ensures
            final(self)@ == old(self)@.settle_hor(keys, touch),
    {
        proof {
            use_type_invariant(&*self);
        }
        let due = (self.collision_hor == Direction::Left && keys.left) || (self.collision_hor
            == Direction::Right && keys.right);
        if due && !touch {
            let x: i64 = if self.collision_hor == Direction::Left { -1 } else { 1 };
            self.direction = Vector { x, y: self.direction.y };
            self.collision_hor = Direction::Null;
        }
    }

    /// The answer to the vertical probe.
    fn settle_ver(&mut self, keys: Keys, touch: bool)
        ensures
            final(self)@ == old(self)@.settle_ver(keys, touch),
    {
        proof {
            use_type_invariant(&*self);
        }
        let due = (self.collision_ver == Direction::Up && keys.up) || (self.collision_ver
            == Direction::Down && keys.down);
        if due && !touch {
            let y: i64 = if self.collision_ver == Direction::Up { -1 } else { 1 };
            self.direction = Vector { x: self.direction.x, y };
            self.collision_ver = Direction::Null;
        }
    }

    /// Blocks that the player walks away from are lifted.
    fn release(&mut self)
        ensures
            final(self)@ == old(self)@.release(),
    {
        proof {
            use_type_invariant(&*self);
        }
        let d = self.direction;
        if (self.collision_hor == Direction::Right && d.x == -1) || (self.collision_hor
            == Direction::Left && d.x == 1) {
            self.collision_hor = Direction::Null;
        }
        if (self.collision_ver == Direction::Down && d.y == -1) || (self.collision_ver
            == Direction::Up && d.y == 1) {
            self.collision_ver = Direction::Null;
        }
    }

    /// The answer to a contact with the map.
    fn resolve(&mut self, contact: Option<Contact>)
        requires
            old(self)@.pos.has_room(),
        ensures
            final(self)@ == old(self)@.resolve(contact),
            pushed(final(self)@.pos),
    {
        proof {
            use_type_invariant(&*self);
        }
        let d = self.direction;
        let p = self.pos;
        match contact {
            None => {
                self.collision_ver = Direction::Null;
                self.collision_hor = Direction::Null;
            },
            Some(c) => {
                if 0 <= c.depth && c.depth < MAX_DEPTH {
                    if c.normal.x == -UNIT && d.x == 1 {
                        self.collision_hor = Direction::Right;
                        self.direction = Vector { x: 0, y: d.y };
                        self.pos = Point { x: p.x - c.depth, y: p.y };
                    } else if c.normal.x == UNIT && d.x == -1 {
                        self.collision_hor = Direction::Left;
                        self.direction = Vector { x: 0, y: d.y };
                        self.pos = Point { x: p.x + c.depth, y: p.y };
                    } else if c.normal.y == -UNIT && d.y == 1 {
                        self.collision_ver = Direction::Down;
                        self.direction = Vector { x: d.x, y: 0 };
                        self.pos = Point { x: p.x, y: p.y - c.depth };
                    } else if c.normal.y == UNIT && d.y == -1 {
                        self.collision_ver = Direction::Up;
                        self.direction = Vector { x: d.x, y: 0 };
                        self.pos = Point { x: p.x, y: p.y + c.depth };
                    }
                }
            },
        }
    }

    /// Where the player would be after one tick's walk.
    fn pos_from_move(&self) -> (p: Point)
        requires
            pushed(self@.pos),
        ensures
            p == self@.pos_from_move(),
            p.in_world(),
    {
        proof {
            use_type_invariant(self);
        }
        let step = stride_of(self.direction, PLAYER_SPEED);
        self.pos.offset(step)
    }

    /// One tick of the player, with the keys as they are held and the
    /// collision world's answers.
    pub fn update(&mut self, keys: Keys, sense: Sense)
        requires
            old(self)@.pos.has_room(),
        ensures
            final(self)@ == old(self)@.update(keys, sense),
            final(self)@.wf(),
    {
        self.animate();
        if self.walking {
            self.settle_hor(keys, sense.hor_touch);
            self.settle_ver(keys, sense.ver_touch);
            self.release();
            self.resolve(sense.contact);
            let p = self.pos_from_move();
            proof {
                use_type_invariant(&*self);
            }
            self.pos = p;
        }
        proof {
            use_type_invariant(&*self);
        }
    }

    /// Whether the player walks in the coming tick: whether it has an intent.
    /// A tick of a player that stands asks nothing of the collision world,
    /// and reads nothing of the `Sense` it is given.
    pub fn wants_to_walk(&self) -> (w: bool)
        ensures
            w == self@.animate().walking,
            !w ==> forall|keys: Keys, sense: Sense| #[trigger]
                self@.update(keys, sense) == self@.animate(),
    {
        !(self.direction.x == 0 && self.direction.y == 0)
    }

    /// Where to put the collider for the horizontal probe of the coming
    /// tick; `None` if that tick makes no such probe.
    pub fn hor_probe(&self, keys: Keys) -> (at: Option<Point>)
        requires
            self@.pos.has_room(),
        ensures
            at == self@.hor_probe(keys),
    {
        proof {
            use_type_invariant(self);
        }
        let d = self.direction;
        let walking = !(d.x == 0 && d.y == 0);
        let due = (self.collision_hor == Direction::Left && keys.left) || (self.collision_hor
            == Direction::Right && keys.right);
        if walking && due {
            let x: i64 = if self.collision_hor == Direction::Left { -1 } else { 1 };
            let step = stride_of(Vector { x, y: d.y }, PLAYER_SPEED);
            let to = self.pos.offset(step);
            Some(Point { x: to.x + SHAPE_DX, y: to.y + SHAPE_DY })
        } else {
            None
        }
    }

    /// Where to put the collider for the vertical probe of the coming tick,
    /// given the answer to the horizontal one; `None` if that tick makes no
    /// such probe.
    pub fn ver_probe(&self, keys: Keys, hor_touch: bool) -> (at: Option<Point>)
        requires
            self@.pos.has_room(),
        ensures
            at == self@.ver_probe(keys, hor_touch),
    {
        proof {
            use_type_invariant(self);
        }
        let d = self.direction;
        let walking = !(d.x == 0 && d.y == 0);
        let hor_due = (self.collision_hor == Direction::Left && keys.left) || (self.collision_hor
            == Direction::Right && keys.right);
        let x: i64 = if hor_due && !hor_touch {
            if self.collision_hor == Direction::Left { -1 } else { 1 }
        } else {
            d.x
        };
        let due = (self.collision_ver == Direction::Up && keys.up) || (self.collision_ver
            == Direction::Down && keys.down);
        if walking && due {
            let y: i64 = if self.collision_ver == Direction::Up { -1 } else { 1 };
            let step = stride_of(Vector { x, y }, PLAYER_SPEED);
            let to = self.pos.offset(step);
            Some(Point { x: to.x + SHAPE_DX, y: to.y + SHAPE_DY })
        } else {
            None
        }
    }

    /// What to draw for the player.
    pub fn draw(&self) -> (f: Figure)
        ensures
            f == self@.figure(),
    {
        match self.animation_state {
            Direction::Right => Figure {
                sheet: Direction::Right,
                src: Some(self.run_right.draw(self.pos).src),
                dest: self.pos,
            },
            Direction::Left => Figure {
                sheet: Direction::Left,
                src: Some(self.run_left.draw(self.pos).src),
                dest: self.pos,
            },
            Direction::Up => Figure {
                sheet: Direction::Up,
                src: Some(self.run_up.draw(self.pos).src),
                dest: self.pos,
            },
            Direction::Down => Figure {
                sheet: Direction::Down,
                src: Some(self.run_down.draw(self.pos).src),
                dest: self.pos,
            },
            Direction::Null => Figure { sheet: Direction::Null, src: None, dest: self.pos },
        }
    }

    /// The outline of the collider, for drawing it.
    pub fn draw_mesh(&self) -> (r: Rect)
        ensures
            r == self@.outline(),
    {
        let c = self.shape_pos(None);
        Rect { x: c.x, y: c.y, w: SHAPE_WIDTH, h: SHAPE_HEIGHT }
    }

    /// The corners of what the player sees, in order around the player.
    pub fn draw_visibility(&self) -> (v: &Vec<Point>)
        ensures
            v@ == self@.visibility,
    {
        &self.visibility
    }

    /// Where the player is.
    pub fn position(&self) -> (p: Point)
        ensures
            p == self@.pos,
            p.in_world(),
    {
        proof {
            use_type_invariant(self);
        }
        self.pos
    }

    /// Where the keys ask the player to go.
    pub fn direction(&self) -> (d: Vector)
        ensures
            d == self@.direction,
            is_intent(d),
    {
        proof {
            use_type_invariant(self);
        }
        self.direction
    }

    /// The side on which a wall blocks the player to the left or right, or
    /// `Null`.
    pub fn collision_hor(&self) -> (d: Direction)
        ensures
            d == self@.collision_hor,
    {
        self.collision_hor
    }

    /// The side on which a wall blocks the player above or below, or `Null`.
    pub fn collision_ver(&self) -> (d: Direction)
        ensures
            d == self@.collision_ver,
    {
        self.collision_ver
    }

    /// The strip that shows the player.
    pub fn animation_state(&self) -> (d: Direction)
        ensures
            d == self@.animation_state,
    {
        self.animation_state
    }

    /// Whether the player walked in the last tick.
    pub fn walking(&self) -> (w: bool)
        ensures
            w == self@.walking,
    {
        self.walking
    }

    /// The name of the player's collider.
    pub fn col_handle(&self) -> (h: u64)
        ensures
            h == self@.col_handle,
    {
        self.col_handle
    }

    /// Whether one tick cannot take the player out of the world.
    pub fn is_roomy(&self) -> (r: bool)
        ensures
            r == self@.pos.has_room(),
    {
        self.pos.is_roomy()
    }

    /// The player looks around: `hits` are the points where its lines of
    /// sight toward the map's corner points end.
    pub fn look(&mut self, hits: &Vec<Point>)
        requires
            forall|i: int| 0 <= i < hits@.len() ==> in_sight(#[trigger] hits@[i]),
        ensures
            final(self)@ == old(self)@.looked(hits@),
            final(self)@.wf(),
            in_order(final(self)@.visibility, old(self)@.eye()),
            final(self)@.visibility.to_multiset() == hits@.to_multiset(),
    {
        proof {
            use_type_invariant(&*self);
        }
        let eye = self.eye();
        self.visibility = arrange(hits, eye);
    }

    /// The point from which the player looks around.
    pub fn eye(&self) -> (p: Point)
        ensures
            p == self@.eye(),
            in_sight(p),
    {
        proof {
            use_type_invariant(self);
        }
        Point { x: self.pos.x + EYE_DX, y: self.pos.y + EYE_DY }
    }
}

impl Score for Player {
    open spec fn total(&self) -> int {
        self@.score as int
    }

    fn increase(&mut self, coin: i32)
        ensures
            final(self)@ == (PlayerView { score: (old(self)@.score + coin) as i32, ..old(self)@ }),
    {
        proof {
            use_type_invariant(&*self);
        }
        self.score = self.score + coin;
    }

    fn score(&self) -> (s: i32) {
        self.score
    }
}

/// Walking takes the player as far as its speed says, whichever way it
/// goes: the whole speed along an axis, the speed to within a unit along a
/// diagonal, and nothing without an intent. The map scrolls at this speed
/// too.
pub proof fn lemma_stride_length(dir: Vector)
    requires
        is_intent(dir),
    ensures
        dir == (Vector { x: 0, y: 0 }) ==> stride(dir, PLAYER_SPEED) == (Vector { x: 0, y: 0 }),
        dir != (Vector { x: 0, y: 0 }) ==> (PLAYER_SPEED - 1) * (PLAYER_SPEED - 1) <= stride(
            dir,
            PLAYER_SPEED,
        ).norm2() <= PLAYER_SPEED * PLAYER_SPEED,
{
    assert(PLAYER_SPEED == 4000 && DIAGONAL == 707 && UNIT == 1000);
    assert(4000int * 707 == 2_828_000);
    assert(2_828_000int / 1000 == 2828);
    assert(scaled(PLAYER_SPEED as int, DIAGONAL as int) == 2828);
    let s = stride(dir, PLAYER_SPEED);
    assert(dir.x == 0 || dir.x == 1 || dir.x == -1);
    assert(dir.y == 0 || dir.y == 1 || dir.y == -1);
    if dir.x != 0 && dir.y != 0 {
        let along = scaled(PLAYER_SPEED as int, DIAGONAL as int);
        assert(along == 2828);
        assert(dir.x * along == 2828 || dir.x * along == -2828) by (nonlinear_arith)
            requires
                dir.x == 1 || dir.x == -1,
                along == 2828,
        ;
        assert(dir.y * along == 2828 || dir.y * along == -2828) by (nonlinear_arith)
            requires
                dir.y == 1 || dir.y == -1,
                along == 2828,
        ;
        assert(s.x == dir.x * along);
        assert(s.y == dir.y * along);
        assert(s.x * s.x == 2828 * 2828 && s.y * s.y == 2828 * 2828) by (nonlinear_arith)
            requires
                s.x == 2828 || s.x == -2828,
                s.y == 2828 || s.y == -2828,
        ;
    } else if dir.x != 0 {
        assert(s.x == 4000 || s.x == -4000);
        assert(s.y == 0);
        assert(s.x * s.x == 4000 * 4000) by (nonlinear_arith)
            requires
                s.x == 4000 || s.x == -4000,
        ;
    } else if dir.y != 0 {
        assert(s.y == 4000 || s.y == -4000);
        assert(s.x == 0);
        assert(s.y * s.y == 4000 * 4000) by (nonlinear_arith)
            requires
                s.y == 4000 || s.y == -4000,
        ;
    }
}

/// Answering a contact blocks the player on one axis at most: of the two
/// blocks, the one to the side and the one above or below, no more than one
/// is other than it was.
pub proof fn lemma_one_axis_blocked(p: PlayerView, contact: Contact)
    ensures
        p.resolve(Some(contact)).collision_hor == p.collision_hor || p.resolve(
            Some(contact),
        ).collision_ver == p.collision_ver,
{
}

/// A contact outside the depths that count changes nothing.
pub proof fn lemma_noise_ignored(p: PlayerView, contact: Contact)
    requires
        contact.depth < 0 || contact.depth >= MAX_DEPTH,
    ensures
        p.resolve(Some(contact)) == p,
{
}

/// A player is valid after any tick and after any key.
pub proof fn lemma_player_stays_valid(p: PlayerView, keys: Keys, sense: Sense, key: Key)
    requires
        p.wf(),
    ensures
        p.pos.has_room() ==> p.update(keys, sense).wf(),
        p.key_down(key).wf(),
        p.key_up(key).wf(),
{
    if p.pos.has_room() {
        let a = p.animate();
        if a.walking {
            let b = a.settle_hor(keys, sense.hor_touch).settle_ver(keys, sense.ver_touch).release();
            let c = b.resolve(sense.contact);
            crate::geom::lemma_scaled_bound(PLAYER_SPEED as int, DIAGONAL as int);
            assert(is_intent(c.direction));
            let along: int = if c.direction.x != 0 && c.direction.y != 0 {
                scaled(PLAYER_SPEED as int, DIAGONAL as int)
            } else {
                PLAYER_SPEED as int
            };
            assert(-along <= c.direction.x * along <= along && -along <= c.direction.y * along
                <= along) by (nonlinear_arith)
                requires
                    -1 <= c.direction.x <= 1,
                    -1 <= c.direction.y <= 1,
                    0 <= along,
            ;
        }
    }
}

} // verus!
