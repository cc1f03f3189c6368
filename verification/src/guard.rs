//! Guards: walking a round of patrol points, turning toward the next point
//! on arrival, and watching a cone of the map ahead.
//!
//! Rotating a direction is left to the owner of the collision world, who
//! hands the rotated direction in with each tick.

use vstd::prelude::*;
use crate::anim::{Animation, Direction, Sprite, cell};
use crate::chance::draw_between;
use crate::geom::{gap, quot, scale, scaled, within, Point, Vector, REACH, UNIT};
use crate::player::next;

verus! {

/// How far a guard walks in one tick.
pub const GUARD_SPEED: i64 = 3300;

/// By how much the length of one tick's walk may miss the guard's speed,
/// for the rounding of the direction and of the step.
pub const WALK_SLACK: i64 = 6;

/// How much farther than one tick's walk a guard may be from a patrol point,
/// along each axis, and count as arrived.
pub const ARRIVAL_SLACK: i64 = 200;

/// How many ticks a guard takes to turn toward its next patrol point.
pub const TURN_TICKS: u32 = 8;

/// How far a guard sees, in pixels.
pub const SIGHT: i64 = 64;

/// Cosine and sine, in thousandths, of half the angle of the cone that a
/// guard watches: thirty degrees.
pub const CONE_COS: i64 = 866;

pub const CONE_SIN: i64 = 500;

/// By how much the length of an edge of the cone may miss the guard's
/// sight, for the rounding of the direction, of the angle and of the edge.
pub const CONE_SLACK: i64 = 70;

/// From a guard's position to the point it looks from.
pub const GUARD_EYE_DX: i64 = 16 * UNIT;

pub const GUARD_EYE_DY: i64 = 13 * UNIT;

/// What a guard is doing.
#[derive(Clone, Copy, Debug, PartialEq, Eq, Structural)]
pub enum Phase {
    /// Walking toward the next patrol point.
    Traveling,
    /// Standing and turning toward the next patrol point, for this many
    /// ticks more.
    Turning(u32),
}

/// What the world tells a guard in one tick.
#[derive(Clone, Copy, Debug, PartialEq, Eq, Structural)]
pub struct GuardSense {
    /// Whether the guard's cone touches the player's collider.
    pub contact: bool,
    /// The guard's direction after one more step of its turn, a heading;
    /// read only while the guard is turning.
    pub turned: Vector,
}

/// The triangle that a guard watches: the point it looks from, and the far
/// corners at the guard's right and left hand.
#[derive(Clone, Copy, Debug, PartialEq, Eq, Structural)]
pub struct Cone {
    pub apex: Point,
    pub right: Point,
    pub left: Point,
}

/// `dir` turned by the cone's half angle and stretched to the guard's sight.
/// With the sine of the half angle for `sin` the turn goes from the first
/// axis toward the second, which on a screen is to the right hand of one who
/// looks along `dir`; with its negative, to the left hand.
pub open spec fn cone_edge(dir: Vector, sin: int) -> Vector {
    Vector {
        x: quot((dir.x * CONE_COS - dir.y * sin) * SIGHT, UNIT as int) as i64,
        y: quot((dir.x * sin + dir.y * CONE_COS) * SIGHT, UNIT as int) as i64,
    }
}

/// The cone of a guard at `pos` that looks along `dir`.
pub open spec fn cone(pos: Point, dir: Vector) -> Cone {
    let apex = pos.plus(Vector { x: GUARD_EYE_DX, y: GUARD_EYE_DY });
    Cone {
        apex,
        right: apex.plus(cone_edge(dir, CONE_SIN as int)),
        left: apex.plus(cone_edge(dir, -CONE_SIN)),
    }
}

/// How far a guard that looks along `dir` walks in one tick: its speed
/// along `dir`, each component rounded toward zero.
pub open spec fn walk(dir: Vector) -> Vector {
    Vector {
        x: scaled(GUARD_SPEED as int, dir.x as int) as i64,
        y: scaled(GUARD_SPEED as int, dir.y as int) as i64,
    }
}

/// Whether `step` is one tick's walk of a guard: of the length of the
/// guard's speed, to within `WALK_SLACK` units.
pub open spec fn is_walk(step: Vector) -> bool {
    (GUARD_SPEED - WALK_SLACK) * (GUARD_SPEED - WALK_SLACK) <= step.norm2() <= (GUARD_SPEED
        + WALK_SLACK) * (GUARD_SPEED + WALK_SLACK)
}

/// The side that `dir` mostly points to, or `before` where it points to
/// none more than another.
pub open spec fn facing(dir: Vector, before: Direction) -> Direction {
    let lean = gap(dir.x as int, 0) - gap(dir.y as int, 0);
    if dir.x > 0 && lean > 0 {
        Direction::Right
    } else if dir.x < 0 && lean > 0 {
        Direction::Left
    } else if dir.y > 0 && lean < 0 {
        Direction::Down
    } else if dir.y < 0 && lean < 0 {
        Direction::Up
    } else {
        before
    }
}

/// A guard's state.
pub struct GuardView {
    pub pos: Point,
    /// Where the guard looks and walks: a heading, which is a vector of
    /// length `UNIT` as nearly as whole thousandths allow, or no direction.
    pub direction: Vector,
    pub phase: Phase,
    pub run_left: nat,
    pub run_right: nat,
    pub run_down: nat,
    pub run_up: nat,
    pub animation_state: Direction,
    /// The round that the guard walks.
    pub patrol_points: Seq<Point>,
    /// Which point of the round the guard is heading for.
    pub current_patrol: int,
    pub vision_handle: u64,
    pub triangle: Cone,
}

impl GuardView {
    /// What holds of a guard at all times.
    pub open spec fn wf(self) -> bool {
        &&& self.pos.in_world()
        &&& self.direction.is_heading()
        &&& self.patrol_points.len() > 0
        &&& forall|i: int|
            0 <= i < self.patrol_points.len() ==> (#[trigger] self.patrol_points[i]).in_world()
        &&& 0 <= self.current_patrol < self.patrol_points.len()
        &&& (self.phase matches Phase::Turning(k) ==> 1 <= k <= TURN_TICKS)
    }

    /// Whether the guard and its round lie so far inside the world that one
    /// tick cannot take them out.
    pub open spec fn has_room(self) -> bool {
        &&& self.pos.has_room()
        &&& forall|i: int|
            0 <= i < self.patrol_points.len() ==> (#[trigger] self.patrol_points[i]).has_room()
    }

    /// The guard and its round, moved by `by`.
    pub open spec fn shifted(self, by: Vector) -> GuardView {
        GuardView {
            pos: self.pos.plus(by),
            patrol_points: Seq::new(self.patrol_points.len(), |i: int| self.patrol_points[i].plus(by)),
            ..self
        }
    }

    /// The patrol point that the guard is heading for.
    pub open spec fn next_point(self) -> Point
        recommends
            self.wf(),
    {
        self.patrol_points[self.current_patrol]
    }

    /// A guard that has just been posted on the first point of its round:
    /// looking down, and about to head for the point it stands on.
    pub open spec fn posted(patrol_points: Seq<Point>, handle: u64) -> GuardView
        recommends
            patrol_points.len() > 0,
    {
        GuardView {
            pos: patrol_points[0],
            direction: Vector { x: 0, y: UNIT },
            phase: Phase::Traveling,
            run_left: 0,
            run_right: 0,
            run_down: 0,
            run_up: 0,
            animation_state: Direction::Down,
            patrol_points,
            current_patrol: 0,
            vision_handle: handle,
            triangle: Cone { apex: patrol_points[0], right: patrol_points[0], left: patrol_points[0] },
        }
    }

    /// Whether the guard is as good as on the point it is heading for: along
    /// both axes no farther from it than one tick's walk and the slack.
    pub open spec fn arrived(self) -> bool {
        &&& gap(self.pos.x as int, self.next_point().x as int) <= GUARD_SPEED + ARRIVAL_SLACK
        &&& gap(self.pos.y as int, self.next_point().y as int) <= GUARD_SPEED + ARRIVAL_SLACK
    }

    /// The guard takes the next point of its round as its aim, the first
    /// after the last, and starts to turn toward it.
    pub open spec fn retarget(self) -> GuardView {
        GuardView {
            current_patrol: (self.current_patrol + 1) % (self.patrol_points.len() as int),
            phase: Phase::Turning(TURN_TICKS),
            ..self
        }
    }

    /// One step of a turn: the guard takes the direction handed in, and goes
    /// back to walking after the last step.
    pub open spec fn turn(self, turned: Vector) -> GuardView {
        GuardView {
            direction: turned,
            phase: match self.phase {
                Phase::Turning(k) => if k > 1 {
                    Phase::Turning((k - 1) as u32)
                } else {
                    Phase::Traveling
                },
                Phase::Traveling => Phase::Traveling,
            },
            ..self
        }
    }

    /// One tick's walk along the guard's direction.
    pub open spec fn advance(self) -> GuardView {
        GuardView { pos: self.pos.plus(walk(self.direction)), ..self }
    }

    /// The guard's movement in one tick: a new aim on arrival, else a step
    /// of its turn, else a walk.
    pub open spec fn act(self, turned: Vector) -> GuardView {
        if self.arrived() {
            self.retarget()
        } else if self.phase is Turning {
            self.turn(turned)
        } else {
            self.advance()
        }
    }

    /// The cone follows the guard, and the strip for the side that the guard
    /// faces moves on by one frame.
    pub open spec fn show(self) -> GuardView {
        let state = facing(self.direction, self.animation_state);
        GuardView {
            triangle: cone(self.pos, self.direction),
            animation_state: state,
            run_right: if state == Direction::Right { next(self.run_right) } else { self.run_right },
            run_left: if state == Direction::Left { next(self.run_left) } else { self.run_left },
            run_up: if state == Direction::Up { next(self.run_up) } else { self.run_up },
            run_down: if state == Direction::Down { next(self.run_down) } else { self.run_down },
            ..self
        }
    }

    /// One tick of a guard.
    pub open spec fn update(self, sense: GuardSense) -> GuardView {
        self.act(sense.turned).show()
    }

    /// Whether the guard catches the player in a tick: whether its cone
    /// touches the player's collider in that tick, whatever went before.
    pub open spec fn catches(self, sense: GuardSense) -> bool {
        sense.contact
    }

    /// The guard after the ticks of `senses`, one after another.
    pub open spec fn after(self, senses: Seq<GuardSense>) -> GuardView
        decreases senses.len(),
    {
        if senses.len() == 0 {
            self
        } else {
            self.after(senses.drop_last()).update(senses.last())
        }
    }

    /// At how many of the ticks of `senses` the guard arrives.
    pub open spec fn arrivals(self, senses: Seq<GuardSense>) -> nat
        decreases senses.len(),
    {
        if senses.len() == 0 {
            0
        } else {
            let before = self.arrivals(senses.drop_last());
            if self.after(senses.drop_last()).arrived() {
                before + 1
            } else {
                before
            }
        }
    }

    /// What to draw for the guard.
    pub open spec fn figure(self) -> Option<(Direction, Sprite)> {
        match self.animation_state {
            Direction::Right => Some(
                (Direction::Right, Sprite { src: cell(self.run_right), dest: self.pos }),
            ),
            Direction::Left => Some(
                (Direction::Left, Sprite { src: cell(self.run_left), dest: self.pos }),
            ),
            Direction::Up => Some((Direction::Up, Sprite { src: cell(self.run_up), dest: self.pos })),
            Direction::Down => Some(
                (Direction::Down, Sprite { src: cell(self.run_down), dest: self.pos }),
            ),
            Direction::Null => None,
        }
    }
}

/// A guard.
#[derive(Debug)]
pub struct Guard {
    pos: Point,
    direction: Vector,
    phase: Phase,
    run_left: Animation,
    run_right: Animation,
    run_down: Animation,
    run_up: Animation,
    animation_state: Direction,
    patrol_points: Vec<Point>,
    current_patrol: usize,
    vision_handle: u64,
    triangle: Cone,
}

impl View for Guard {
    type V = GuardView;

    closed spec fn view(&self) -> GuardView {
        GuardView {
            pos: self.pos,
            direction: self.direction,
            phase: self.phase,
            run_left: self.run_left@,
            run_right: self.run_right@,
            run_down: self.run_down@,
            run_up: self.run_up@,
            animation_state: self.animation_state,
            patrol_points: self.patrol_points@,
            current_patrol: self.current_patrol as int,
            vision_handle: self.vision_handle,
            triangle: self.triangle,
        }
    }
}

/// Whether `p` lies in the rectangle from `low` to `high`, `low` included
/// and `high` not.
pub open spec fn in_rect(p: Point, low: Point, high: Point) -> bool {
    low.x <= p.x < high.x && low.y <= p.y < high.y
}

/// The far corner of a cone's edge, as `cone_edge` gives it.
fn edge_of(dir: Vector, sin: i64) -> (v: Vector)
    requires
        dir.within(UNIT as int),
        sin == CONE_SIN || sin == -CONE_SIN,
    ensures
        v == cone_edge(dir, sin as int),
        v.within(0x2_0000),
{
    assert(-500_000 <= dir.x * sin <= 500_000 && -500_000 <= dir.y * sin <= 500_000)
        by (nonlinear_arith)
        requires
            -1000 <= dir.x <= 1000,
            -1000 <= dir.y <= 1000,
            sin == 500 || sin == -500,
    ;
    let ax: i64 = dir.x * CONE_COS - dir.y * sin;
    let ay: i64 = dir.x * sin + dir.y * CONE_COS;
    proof {
        crate::geom::lemma_quot_bound(ax * SIGHT, UNIT as int);
        crate::geom::lemma_quot_bound(ay * SIGHT, UNIT as int);
    }
    Vector { x: (ax * SIGHT) / UNIT, y: (ay * SIGHT) / UNIT }
}

impl Guard {
    #[verifier::type_invariant]
    spec fn inv(self) -> bool {
        self@.wf()
    }

    /// A guard posted on the first point of the round `patrol`, whose cone
    /// goes by `handle`.
    pub fn from_patrol(patrol: Vec<Point>, handle: u64) -> (g: Guard)
        requires
            patrol@.len() > 0,
            forall|i: int| 0 <= i < patrol@.len() ==> (#[trigger] patrol@[i]).in_world(),
        ensures
            g@ == GuardView::posted(patrol@, handle),
            g@.wf(),
    {
        let first = patrol[0];
        Guard {
            pos: first,
            direction: Vector { x: 0, y: UNIT },
            phase: Phase::Traveling,
            run_left: Animation::new(),
            run_right: Animation::new(),
            run_down: Animation::new(),
            run_up: Animation::new(),
            animation_state: Direction::Down,
            patrol_points: patrol,
            current_patrol: 0,
            vision_handle: handle,
            triangle: Cone { apex: first, right: first, left: first },
        }
    }

    /// A guard for the room between the corners `coor_1` and `coor_2`, with
    /// a round of `patrol_point_count` points drawn by chance inside the
    /// room, posted on the first of them.
    pub fn new(coor_1: Point, coor_2: Point, patrol_point_count: i32, handle: u64) -> (g: Guard)
        requires
            coor_1.x < coor_2.x,
            coor_1.y < coor_2.y,
            coor_1.in_world(),
            coor_2.in_world(),
            patrol_point_count >= 1,
        ensures
            g@.patrol_points.len() == patrol_point_count,
            forall|i: int|
                0 <= i < g@.patrol_points.len() ==> in_rect(
                    #[trigger] g@.patrol_points[i],
                    coor_1,
                    coor_2,
                ),
            g@ == GuardView::posted(g@.patrol_points, handle),
            g@.wf(),
    {
        let mut patrol: Vec<Point> = Vec::new();
        let mut i: i32 = 0;
        while i < patrol_point_count
            invariant
                0 <= i <= patrol_point_count,
                coor_1.x < coor_2.x,
                coor_1.y < coor_2.y,
                coor_1.in_world(),
                coor_2.in_world(),
                patrol@.len() == i,
                forall|k: int| 0 <= k < patrol@.len() ==> in_rect(#[trigger] patrol@[k], coor_1, coor_2),
            decreases patrol_point_count - i,
        {
            let x = draw_between(coor_1.x, coor_2.x);
            let y = draw_between(coor_1.y, coor_2.y);
            patrol.push(Point { x, y });
            i += 1;
        }
        assert forall|k: int| 0 <= k < patrol@.len() implies (#[trigger] patrol@[k]).in_world() by {
            assert(in_rect(patrol@[k], coor_1, coor_2));
        }
        Guard::from_patrol(patrol, handle)
    }

    /// Moves the guard and its round by `by`, as when the map scrolls.
    pub fn shift(&mut self, by: Vector)
        requires
            old(self)@.has_room(),
            by.within(REACH - GUARD_SPEED),
        ensures
            final(self)@ == old(self)@.shifted(by),
            final(self)@.wf(),
            final(self)@.pos.clear_by(GUARD_SPEED as int),
    {
        proof {
            use_type_invariant(&*self);
        }
        let mut moved: Vec<Point> = Vec::new();
        let mut i: usize = 0;
        while i < self.patrol_points.len()
            invariant
                i <= self.patrol_points.len(),
                self@.has_room(),
                by.within(REACH - GUARD_SPEED),
                moved@.len() == i,
                forall|k: int|
                    0 <= k < i ==> #[trigger] moved@[k] == self.patrol_points@[k].plus(by),
            decreases self.patrol_points.len() - i,
        {
            let p = self.patrol_points[i];
            assert(self@.patrol_points[i as int].has_room());
            moved.push(p.offset(by));
            i += 1;
        }
        proof {
            assert(moved@ =~= old(self)@.shifted(by).patrol_points);
            assert forall|k: int| 0 <= k < moved@.len() implies (#[trigger] moved@[k]).in_world() by {
                assert(self@.patrol_points[k].has_room());
            }
        }
        self.patrol_points = moved;
        self.pos = self.pos.offset(by);
    }

    /// Whether one tick cannot take the guard or its round out of the world.
    pub fn is_roomy(&self) -> (r: bool)
        ensures
            r == self@.has_room(),
    {
        if !self.pos.is_roomy() {
            return false;
        }
        let mut i: usize = 0;
        while i < self.patrol_points.len()
            invariant
                i <= self.patrol_points.len(),
                forall|k: int| 0 <= k < i ==> (#[trigger] self.patrol_points@[k]).has_room(),
            decreases self.patrol_points.len() - i,
        {
            if !self.patrol_points[i].is_roomy() {
                assert(!self@.patrol_points[i as int].has_room());
                return false;
            }
            i += 1;
        }
        true
    }

    /// The guard's movement in one tick.
    fn act(&mut self, turned: Vector)
        requires
            old(self)@.pos.clear_by(GUARD_SPEED as int),
            turned.is_heading(),
        ensures
            final(self)@ == old(self)@.act(turned),
    {
        proof {
            use_type_invariant(&*self);
        }
        let aim = self.patrol_points[self.current_patrol];
        let reach = GUARD_SPEED + ARRIVAL_SLACK;
        if within(self.pos.x, aim.x, reach) && within(self.pos.y, aim.y, reach) {
            let n = self.patrol_points.len();
            let after = if self.current_patrol + 1 == n { 0 } else { self.current_patrol + 1 };
            proof {
                let c = self.current_patrol as int;
                if c + 1 == n {
                    vstd::arithmetic::div_mod::lemma_mod_self_0(n as int);
                } else {
                    vstd::arithmetic::div_mod::lemma_small_mod((c + 1) as nat, n as nat);
                }
            }
            self.current_patrol = after;
            self.phase = Phase::Turning(TURN_TICKS);
        } else {
            match self.phase {
                Phase::Turning(k) => {
                    self.direction = turned;
                    self.phase = if k > 1 {
                        Phase::Turning(k - 1)
                    } else {
                        Phase::Traveling
                    };
                },
                Phase::Traveling => {
                    proof {
                        crate::geom::lemma_scaled_bound(GUARD_SPEED as int, self.direction.x as int);
                        crate::geom::lemma_scaled_bound(GUARD_SPEED as int, self.direction.y as int);
                    }
                    let step = Vector {
                        x: scale(GUARD_SPEED, self.direction.x),
                        y: scale(GUARD_SPEED, self.direction.y),
                    };
                    self.pos = self.pos.offset(step);
                },
            }
        }
    }

    /// The side that the guard faces.
    fn facing(&self) -> (state: Direction)
        ensures
            state == facing(self@.direction, self@.animation_state),
    {
        let d = self.direction;
        proof {
            use_type_invariant(self);
        }
        let ax: i64 = if d.x >= 0 { d.x } else { -d.x };
        let ay: i64 = if d.y >= 0 { d.y } else { -d.y };
        if d.x > 0 && ax > ay {
            Direction::Right
        } else if d.x < 0 && ax > ay {
            Direction::Left
        } else if d.y > 0 && ax < ay {
            Direction::Down
        } else if d.y < 0 && ax < ay {
            Direction::Up
        } else {
            self.animation_state
        }
    }

    /// The cone follows the guard, and its strip moves on.
    fn show(&mut self)
        ensures
            final(self)@ == old(self)@.show(),
    {
        proof {
            use_type_invariant(&*self);
        }
        let apex = Point { x: self.pos.x + GUARD_EYE_DX, y: self.pos.y + GUARD_EYE_DY };
        let right = edge_of(self.direction, CONE_SIN);
        let left = edge_of(self.direction, -CONE_SIN);
        self.triangle = Cone { apex, right: apex.offset(right), left: apex.offset(left) };
        self.animation_state = self.facing();
        match self.animation_state {
            Direction::Right => self.run_right.next_frame(),
            Direction::Left => self.run_left.next_frame(),
            Direction::Up => self.run_up.next_frame(),
            Direction::Down => self.run_down.next_frame(),
            Direction::Null => (),
        }
    }

    /// One tick of the guard. Returns whether the guard has caught the
    /// player: whether its cone touches the player's collider in this tick.
    pub fn update(&mut self, sense: GuardSense) -> (caught: bool)
        requires
            old(self)@.pos.clear_by(GUARD_SPEED as int),
            sense.turned.is_heading(),
        ensures
            final(self)@ == old(self)@.update(sense),
            final(self)@.wf(),
            caught == old(self)@.catches(sense),
            old(self)@.arrived() ==> final(self)@.phase is Turning && final(self)@.pos == old(self)@.pos,
            !old(self)@.arrived() && old(self)@.phase is Turning ==> final(self)@.pos == old(
                self,
            )@.pos,
            !old(self)@.arrived() && old(self)@.phase is Traveling ==> {
                let step = walk(old(self)@.direction);
                &&& final(self)@.pos == old(self)@.pos.plus(step)
                &&& (old(self)@.direction == (Vector { x: 0, y: 0 }) ==> step == (Vector { x: 0, y: 0 }))
                &&& (old(self)@.direction != (Vector { x: 0, y: 0 }) ==> is_walk(step))
            },
    {
        proof {
            use_type_invariant(&*self);
            lemma_walk_length(self@.direction);
        }
        self.act(sense.turned);
        self.show();
        proof {
            use_type_invariant(&*self);
        }
        sense.contact
    }

    /// The triangle that the guard watches.
    pub fn draw_vision(&self) -> (c: Cone)
        ensures
            c == self@.triangle,
    {
        self.triangle
    }

    /// What to draw for the guard: the strip for the side it faces, the
    /// current frame of that strip, and the guard's position. A guard that
    /// faces no side is not drawn.
    pub fn draw(&self) -> (f: Option<(Direction, Sprite)>)
        ensures
            f == self@.figure(),
    {
        match self.animation_state {
            Direction::Right => Some((Direction::Right, self.run_right.draw(self.pos))),
            Direction::Left => Some((Direction::Left, self.run_left.draw(self.pos))),
            Direction::Up => Some((Direction::Up, self.run_up.draw(self.pos))),
            Direction::Down => Some((Direction::Down, self.run_down.draw(self.pos))),
            Direction::Null => None,
        }
    }

    /// Where the guard is.
    pub fn position(&self) -> (p: Point)
        ensures
            p == self@.pos,
            p.in_world(),
    {
        proof {
            use_type_invariant(self);
        }
        self.pos
    }

    /// Where the guard looks.
    pub fn direction(&self) -> (d: Vector)
        ensures
            d == self@.direction,
            d.is_heading(),
    {
        proof {
            use_type_invariant(self);
        }
        self.direction
    }

    /// What the guard is doing.
    pub fn phase(&self) -> (p: Phase)
        ensures
            p == self@.phase,
    {
        self.phase
    }

    /// The side that the guard faces.
    pub fn animation_state(&self) -> (d: Direction)
        ensures
            d == self@.animation_state,
    {
        self.animation_state
    }

    /// The round that the guard walks.
    pub fn patrol_points(&self) -> (p: &Vec<Point>)
        ensures
            p@ == self@.patrol_points,
    {
        &self.patrol_points
    }

    /// Which point of its round the guard is heading for.
    pub fn current_patrol(&self) -> (i: usize)
        ensures
            i == self@.current_patrol,
            i < self@.patrol_points.len(),
    {
        proof {
            use_type_invariant(self);
        }
        self.current_patrol
    }

    /// The patrol point that the guard is heading for.
    pub fn next_point(&self) -> (p: Point)
        ensures
            p == self@.next_point(),
    {
        proof {
            use_type_invariant(self);
        }
        self.patrol_points[self.current_patrol]
    }

    /// The name of the guard's cone in the collision world.
    pub fn vision_handle(&self) -> (h: u64)
        ensures
            h == self@.vision_handle,
    {
        self.vision_handle
    }

    /// Where the guard's cone has its apex: where its collider is put.
    pub fn eye(&self) -> (p: Point)
        ensures
            p == self@.pos.plus(Vector { x: GUARD_EYE_DX, y: GUARD_EYE_DY }),
    {
        proof {
            use_type_invariant(self);
        }
        Point { x: self.pos.x + GUARD_EYE_DX, y: self.pos.y + GUARD_EYE_DY }
    }
}

/// The cone reaches as far as the guard sees: along a heading each edge has
/// the length of the guard's sight, to within `CONE_SLACK` units.
pub proof fn lemma_cone_reach(dir: Vector, sin: int)
    requires
        dir.is_heading(),
        dir != (Vector { x: 0, y: 0 }),
        sin == CONE_SIN || sin == -CONE_SIN,
    ensures
        (SIGHT * UNIT - CONE_SLACK) * (SIGHT * UNIT - CONE_SLACK) <= cone_edge(dir, sin).norm2() <= (
        SIGHT * UNIT + CONE_SLACK) * (SIGHT * UNIT + CONE_SLACK),
{
    let x = dir.x as int;
    let y = dir.y as int;
    let n = dir.norm2();
    let a = (x * 866 - y * sin) * 64;
    let b = (x * sin + y * 866) * 64;
    let ex = quot(a, UNIT as int);
    let ey = quot(b, UNIT as int);
    assert(-500_000 <= x * sin <= 500_000 && -500_000 <= y * sin <= 500_000) by (nonlinear_arith)
        requires
            -1000 <= x <= 1000,
            -1000 <= y <= 1000,
            sin == 500 || sin == -500,
    ;
    crate::geom::lemma_quot_square(a);
    crate::geom::lemma_quot_square(b);
    crate::geom::lemma_quot_bound(a, UNIT as int);
    crate::geom::lemma_quot_bound(b, UNIT as int);
    // Turning keeps the length: the squares of cosine and sine add up to
    // 999956 millionths.
    assert(a * a + b * b == 4096 * (999_956 * n)) by (nonlinear_arith)
        requires
            a == (x * 866 - y * sin) * 64,
            b == (x * sin + y * 866) * 64,
            n == x * x + y * y,
            sin == 500 || sin == -500,
    ;
    let size_a = if a >= 0 { a } else { -a };
    let size_b = if b >= 0 { b } else { -b };
    assert(size_a <= 87_424_000 && size_b <= 87_424_000);
    assert(4096 * (999_956 * 998_000) <= 4096 * (999_956 * n) <= 4096 * (999_956 * 1_002_000));
    assert(4096 * (999_956 * 998_000) - 1998 * 174_848_000 <= 1_000_000 * (ex * ex) + 1_000_000 * (
    ey * ey) <= 4096 * (999_956 * 1_002_000));
    assert(cone_edge(dir, sin).x == ex && cone_edge(dir, sin).y == ey);
    assert(cone_edge(dir, sin).norm2() == ex * ex + ey * ey);
    assert(SIGHT * UNIT - CONE_SLACK == 63_930 && SIGHT * UNIT + CONE_SLACK == 64_070);
    assert(63_930int * 63_930 == 4_087_044_900 && 64_070int * 64_070 == 4_104_964_900);
    assert(4096int * (999_956 * 998_000) - 1998 * 174_848_000 >= 4_087_044_900 * 1_000_000);
    assert(4096int * (999_956 * 1_002_000) <= 4_104_964_900 * 1_000_000);
}

/// A guard walks as far as its speed says, whatever its heading: one tick's
/// walk along a heading has the length of the guard's speed, to within
/// `WALK_SLACK` units, and along no direction at all it is no step.
pub proof fn lemma_walk_length(dir: Vector)
    requires
        dir.is_heading(),
    ensures
        dir == (Vector { x: 0, y: 0 }) ==> walk(dir) == (Vector { x: 0, y: 0 }),
        dir != (Vector { x: 0, y: 0 }) ==> is_walk(walk(dir)),
        walk(dir).within(GUARD_SPEED as int),
{
    let a = GUARD_SPEED * dir.x;
    let b = GUARD_SPEED * dir.y;
    let sx = quot(a, UNIT as int);
    let sy = quot(b, UNIT as int);
    crate::geom::lemma_scaled_bound(GUARD_SPEED as int, dir.x as int);
    crate::geom::lemma_scaled_bound(GUARD_SPEED as int, dir.y as int);
    crate::geom::lemma_quot_square(a);
    crate::geom::lemma_quot_square(b);
    assert(walk(dir).x == sx && walk(dir).y == sy);
    if dir != (Vector { x: 0, y: 0 }) {
        let n = dir.norm2();
        assert(a * a + b * b == 10_890_000 * n) by (nonlinear_arith)
            requires
                a == 3300 * dir.x,
                b == 3300 * dir.y,
                n == dir.x * dir.x + dir.y * dir.y,
        ;
        let size_a = if a >= 0 { a } else { -a };
        let size_b = if b >= 0 { b } else { -b };
        assert(size_a <= 3_300_000 && size_b <= 3_300_000);
        // A million times the square of the step's length lies between
        // these two, and so the square itself between the squares of
        // 3294 and 3306.
        assert(10_890_000 * 998_000 - 1998 * 6_600_000 <= 1_000_000 * (sx * sx) + 1_000_000 * (sy
            * sy) <= 10_890_000 * 1_002_000);
        assert(walk(dir).norm2() == sx * sx + sy * sy);
    }
}

/// A guard that is within one tick's walk and the slack of its aim, along
/// both axes, is not walking when the tick is over: it has taken its next
/// aim, stands where it stood, and has its whole turn before it.
pub proof fn lemma_arrival_ends_travel(g: GuardView, sense: GuardSense)
    requires
        g.patrol_points.len() >= 1,
        0 <= g.current_patrol < g.patrol_points.len(),
        gap(g.pos.x as int, g.next_point().x as int) <= GUARD_SPEED + ARRIVAL_SLACK,
        gap(g.pos.y as int, g.next_point().y as int) <= GUARD_SPEED + ARRIVAL_SLACK,
    ensures
        g.update(sense).phase == Phase::Turning(TURN_TICKS),
        g.update(sense).pos == g.pos,
        g.update(sense).current_patrol == (g.current_patrol + 1) % (g.patrol_points.len() as int),
        g.update(sense).next_point() == g.patrol_points[g.update(sense).current_patrol],
        g.update(sense).patrol_points == g.patrol_points,
{
}

/// Taking the next aim moves the aim on by one point, from the last point
/// to the first, and changes neither the points nor the guard's place.
pub proof fn lemma_next_aim(g: GuardView)
    requires
        g.patrol_points.len() >= 1,
        0 <= g.current_patrol < g.patrol_points.len(),
    ensures
        g.retarget().current_patrol == (g.current_patrol + 1) % (g.patrol_points.len() as int),
        0 <= g.retarget().current_patrol < g.patrol_points.len(),
        g.retarget().next_point() == g.patrol_points[(g.current_patrol + 1) % (
        g.patrol_points.len() as int)],
        g.retarget().patrol_points == g.patrol_points,
        g.retarget().pos == g.pos,
{
    let n = g.patrol_points.len() as int;
    if g.current_patrol + 1 == n {
        vstd::arithmetic::div_mod::lemma_mod_self_0(n);
    } else {
        vstd::arithmetic::div_mod::lemma_small_mod((g.current_patrol + 1) as nat, n as nat);
    }
}

/// In one tick a guard's aim stays or moves on by one point, round the
/// points: none is skipped and none taken out of order, and the points
/// stay as they are.
pub proof fn lemma_aim_moves_in_order(g: GuardView, sense: GuardSense)
    requires
        g.patrol_points.len() >= 1,
        0 <= g.current_patrol < g.patrol_points.len(),
    ensures
        0 <= g.update(sense).current_patrol < g.patrol_points.len(),
        g.update(sense).current_patrol == g.current_patrol || g.update(sense).current_patrol == (
        g.current_patrol + 1) % (g.patrol_points.len() as int),
        g.update(sense).current_patrol != g.current_patrol ==> g.arrived(),
        g.update(sense).patrol_points == g.patrol_points,
{
    lemma_next_aim(g);
}

/// A guard that is not yet at its aim keeps its aim, and moves only if it
/// is walking.
pub proof fn lemma_aim_kept_until_arrival(g: GuardView, sense: GuardSense)
    requires
        !g.arrived(),
    ensures
        g.update(sense).current_patrol == g.current_patrol,
        g.phase is Turning ==> g.update(sense).pos == g.pos,
{
}

/// A guard's aim goes round its patrol points in order: after any ticks it
/// is as many points past the aim it began with as the guard has arrived,
/// counted round the points. The points themselves stay.
pub proof fn lemma_round_robin(g: GuardView, senses: Seq<GuardSense>)
    requires
        g.patrol_points.len() >= 1,
        0 <= g.current_patrol < g.patrol_points.len(),
    ensures
        g.after(senses).patrol_points == g.patrol_points,
        g.after(senses).current_patrol == (g.current_patrol + g.arrivals(senses)) % (
        g.patrol_points.len() as int),
        0 <= g.after(senses).current_patrol < g.patrol_points.len(),
    decreases senses.len(),
{
    let n = g.patrol_points.len() as int;
    if senses.len() == 0 {
        vstd::arithmetic::div_mod::lemma_small_mod(g.current_patrol as nat, n as nat);
    } else {
        let earlier = senses.drop_last();
        lemma_round_robin(g, earlier);
        let h = g.after(earlier);
        let total = g.current_patrol + g.arrivals(earlier);
        if h.arrived() {
            vstd::arithmetic::div_mod::lemma_add_mod_noop(total, 1, n);
            if n == 1 {
                assert((total % n + 1) % n == 0);
                assert((total + 1) % n == 0);
            } else {
                vstd::arithmetic::div_mod::lemma_small_mod(1, n as nat);
            }
        }
    }
}

/// Being caught does not last: when a guard's cone touches the player in
/// one tick and not in the next, the guard catches the player in the first
/// and not in the second.
pub proof fn lemma_caught_is_not_kept(g: GuardView, first: GuardSense, second: GuardSense)
    requires
        first.contact,
        !second.contact,
    ensures
        g.catches(first),
        !g.update(first).catches(second),
{
}

/// A guard catches the player in a tick if and only if its cone touches the
/// player's collider in that tick: what the guard was or did before has no
/// part in it.
pub proof fn lemma_caught_is_the_contact(g: GuardView, h: GuardView, sense: GuardSense)
    ensures
        g.catches(sense) == sense.contact,
        g.catches(sense) == h.catches(sense),
{
}

} // verus!
