//! The map of a level: its tiles, its walls, and the guards and gold in its
//! rooms.

use vstd::prelude::*;
use crate::anim::Sprite;
use crate::geom::{quot, Point, Rect, Vector, REACH, UNIT, WORLD};
use crate::gold::{worth, Gold};
use crate::guard::{in_rect, Cone, Guard, GuardSense, GuardView};
use crate::level::{
    corner_ok, lemma_parse_ok, parse, parse_level, tile_ok, tile_size_ok, LevelView, LoadError,
    Room, Tile, TileType, WallBox, CORNER_PARTS, MAX_TEXT, MAX_TILE,
};
use crate::player::{is_intent, stride, stride_of};

verus! {

/// How far the map scrolls in one tick.
pub const MAP_SPEED: i64 = 4 * UNIT;

/// The most guards and pieces of gold, taken together, that a map holds.
pub const MAX_SPAWN: u64 = 0x100_0000;

/// The farthest from the origin, along either axis, that a map may start.
pub const MAX_START: i64 = 0x2000_0000_0000_0000;

/// How many things a count of a room line asks for: none if it is negative.
pub open spec fn count(n: i32) -> nat {
    if n > 0 {
        n as nat
    } else {
        0
    }
}

/// How many guards and pieces of gold the rooms ask for.
pub open spec fn spawn_total(rooms: Seq<Room>) -> nat
    decreases rooms.len(),
{
    if rooms.len() == 0 {
        0
    } else {
        spawn_total(rooms.drop_last()) + count(rooms.last().guards) + count(rooms.last().gold)
    }
}

/// Whether a map may start at `start`.
pub open spec fn start_ok(start: Point) -> bool {
    -MAX_START <= start.x <= MAX_START && -MAX_START <= start.y <= MAX_START
}

/// Whether a map may start at `start`.
pub fn is_start(start: Point) -> (ok: bool)
    ensures
        ok == start_ok(start),
{
    -MAX_START <= start.x && start.x <= MAX_START && -MAX_START <= start.y && start.y <= MAX_START
}

/// The corner of a room that its first pair of numbers names, on a map that
/// starts at `start` with tiles of size `tile`.
pub open spec fn room_low(r: Room, start: Point, tile: Vector) -> Point {
    Point { x: (start.x + r.x1 * tile.x) as i64, y: (start.y + r.y1 * tile.y) as i64 }
}

/// The corner of a room that its second pair of numbers names.
pub open spec fn room_high(r: Room, start: Point, tile: Vector) -> Point {
    Point { x: (start.x + r.x2 * tile.x) as i64, y: (start.y + r.y2 * tile.y) as i64 }
}

/// Whether a room has an inside: its first corner lies above and to the
/// left of its second.
pub open spec fn has_inside(r: Room, start: Point, tile: Vector) -> bool {
    let low = room_low(r, start, tile);
    let high = room_high(r, start, tile);
    low.x < high.x && low.y < high.y
}

/// Why a room cannot be filled, if it cannot.
pub open spec fn room_fault(r: Room, start: Point, tile: Vector) -> Option<LoadError> {
    if r.guards > 0 && r.patrol_points < 1 {
        Some(LoadError::NoPatrol)
    } else if (r.guards > 0 || r.gold > 0) && !has_inside(r, start, tile) {
        Some(LoadError::EmptyRoom)
    } else {
        None
    }
}

/// The fault of the first room that cannot be filled.
pub open spec fn first_fault(rooms: Seq<Room>, start: Point, tile: Vector) -> Option<LoadError>
    decreases rooms.len(),
{
    if rooms.len() == 0 {
        None
    } else {
        match room_fault(rooms[0], start, tile) {
            Some(e) => Some(e),
            None => first_fault(rooms.skip(1), start, tile),
        }
    }
}

/// Why a level cannot be loaded, if it cannot: its text is turned down, or
/// its rooms ask for too much, or one of them cannot be filled.
pub open spec fn load_fault(text: Seq<u8>, start: Point, tile: Vector) -> Option<LoadError> {
    match parse(text, tile) {
        Err(e) => Some(e),
        Ok(level) => if spawn_total(level.rooms) > MAX_SPAWN {
            Some(LoadError::Crowded)
        } else {
            first_fault(level.rooms, start, tile)
        },
    }
}

/// Whether `g` is a guard newly posted in room `r`, with a round of as many
/// points as the room asks for, all in the room, and a cone named `handle`.
pub open spec fn staffed(g: GuardView, r: Room, start: Point, tile: Vector, handle: int) -> bool {
    &&& g.patrol_points.len() == r.patrol_points
    &&& forall|i: int|
        0 <= i < g.patrol_points.len() ==> in_rect(
            #[trigger] g.patrol_points[i],
            room_low(r, start, tile),
            room_high(r, start, tile),
        )
    &&& g == GuardView::posted(g.patrol_points, handle as u64)
}

/// Whether `c` is a piece of gold of one of the three kinds, in room `r`,
/// with a collider named `handle`.
pub open spec fn stocked(c: Gold, r: Room, start: Point, tile: Vector, handle: int) -> bool {
    &&& 1 <= c.kind <= 3
    &&& c.value == worth(c.kind as int)
    &&& in_rect(c.pos, room_low(r, start, tile), room_high(r, start, tile))
    &&& c.handle == handle
}

/// Whether `guards` and `gold` are what the rooms ask for: room after room
/// as many guards and pieces as it names, each inside its room. The
/// colliders are named by counting from 0, room after room, in each room
/// first the guards and then the gold.
pub open spec fn populated(
    rooms: Seq<Room>,
    start: Point,
    tile: Vector,
    guards: Seq<GuardView>,
    gold: Seq<Gold>,
) -> bool
    decreases rooms.len(),
{
    if rooms.len() == 0 {
        guards.len() == 0 && gold.len() == 0
    } else {
        let r = rooms.last();
        let before = rooms.drop_last();
        let ng = count(r.guards) as int;
        let nc = count(r.gold) as int;
        let first = spawn_total(before) as int;
        &&& guards.len() >= ng
        &&& gold.len() >= nc
        &&& populated(before, start, tile, guards.take(guards.len() - ng), gold.take(gold.len() - nc))
        &&& forall|i: int|
            guards.len() - ng <= i < guards.len() ==> staffed(
                #[trigger] guards[i],
                r,
                start,
                tile,
                first + (i - (guards.len() - ng)),
            )
        &&& forall|i: int|
            gold.len() - nc <= i < gold.len() ==> stocked(
                #[trigger] gold[i],
                r,
                start,
                tile,
                first + ng + (i - (gold.len() - nc)),
            )
    }
}

/// The state of a map.
pub struct TileMapView {
    /// Width and height of the grid, in tiles, as the level's header has
    /// them.
    pub width: int,
    pub height: int,
    /// Where the grid's top-left corner lies.
    pub start: Point,
    /// How the map moved in the last tick.
    pub vel: Vector,
    pub tile_size: Vector,
    /// The corner points, in parts of a tile from the grid's top-left corner.
    pub corners: Seq<Point>,
    pub matrix: Seq<Seq<Tile>>,
    /// The boxes of the map's collision shape.
    pub walls: Seq<WallBox>,
    /// The name of the map's collider.
    pub handle: u64,
    pub guards: Seq<GuardView>,
    pub gold: Seq<Gold>,
}

impl TileMapView {
    /// What holds of a map at all times.
    pub open spec fn wf(self) -> bool {
        &&& self.start.in_world()
        &&& self.vel.within(MAP_SPEED as int)
        &&& tile_size_ok(self.tile_size)
        &&& forall|r: int, c: int|
            0 <= r < self.matrix.len() && 0 <= c < self.matrix[r].len() ==> tile_ok(
                #[trigger] self.matrix[r][c],
                self.tile_size,
            )
        &&& forall|i: int| 0 <= i < self.corners.len() ==> corner_ok(#[trigger] self.corners[i])
        &&& forall|i: int| 0 <= i < self.guards.len() ==> (#[trigger] self.guards[i]).wf()
        &&& forall|i: int| 0 <= i < self.gold.len() ==> (#[trigger] self.gold[i]).pos.in_world()
        &&& self.gold.len() <= MAX_SPAWN
        &&& forall|i: int|
            0 <= i < self.gold.len() ==> 0 <= (#[trigger] self.gold[i]).value <= 50
    }

    /// Whether the map's start lies so far inside the world that one tick
    /// cannot take it out.
    pub open spec fn has_room(self) -> bool {
        self.start.has_room()
    }

    /// Whether every piece of gold has room to move.
    pub open spec fn gold_has_room(self) -> bool {
        forall|i: int| 0 <= i < self.gold.len() ==> (#[trigger] self.gold[i]).pos.has_room()
    }

    /// Whether every guard has room to move.
    pub open spec fn guards_have_room(self) -> bool {
        forall|i: int| 0 <= i < self.guards.len() ==> (#[trigger] self.guards[i]).has_room()
    }

    /// The map after a tick in which the player wants to go along `dir`:
    /// the map moves the other way, at its own speed.
    pub open spec fn scrolled(self, dir: Vector) -> TileMapView {
        let vel = stride(Vector { x: (-dir.x) as i64, y: (-dir.y) as i64 }, MAP_SPEED);
        TileMapView { vel, start: self.start.plus(vel), ..self }
    }

    /// The map after a tick of its gold: the pieces that the player touches
    /// are gone, and the others have moved with the map.
    pub open spec fn after_gold(self, touched: Seq<bool>) -> TileMapView {
        TileMapView { gold: kept(self.gold, touched, self.vel), ..self }
    }

    /// The map after a tick of its guards: each has moved with the map and
    /// then made its own tick.
    pub open spec fn after_guards(self, senses: Seq<GuardSense>) -> TileMapView {
        TileMapView {
            guards: Seq::new(
                self.guards.len(),
                |i: int| self.guards[i].shifted(self.vel).update(senses[i]),
            ),
            ..self
        }
    }

    /// Where the corner points lie in the world.
    pub open spec fn world_corners(self) -> Seq<Point> {
        Seq::new(
            self.corners.len(),
            |i: int| corner_place(self.corners[i], self.start, self.tile_size),
        )
    }
}

/// What the touched pieces among `gold` are worth together.
pub open spec fn gain(gold: Seq<Gold>, touched: Seq<bool>) -> int
    recommends
        gold.len() == touched.len(),
    decreases gold.len(),
{
    if gold.len() == 0 {
        0
    } else {
        gain(gold.drop_last(), touched.drop_last()) + if touched.last() {
            gold.last().value as int
        } else {
            0
        }
    }
}

/// The pieces among `gold` that are not touched, in their order, each moved
/// by `vel`.
pub open spec fn kept(gold: Seq<Gold>, touched: Seq<bool>, vel: Vector) -> Seq<Gold>
    recommends
        gold.len() == touched.len(),
    decreases gold.len(),
{
    if gold.len() == 0 {
        Seq::empty()
    } else {
        let before = kept(gold.drop_last(), touched.drop_last(), vel);
        if touched.last() {
            before
        } else {
            before.push(gold.last().moved(vel))
        }
    }
}

/// Whether any guard has caught the player.
pub open spec fn any_contact(senses: Seq<GuardSense>) -> bool {
    exists|i: int| 0 <= i < senses.len() && (#[trigger] senses[i]).contact
}

/// Where a corner point lies in the world, for a map that starts at `start`
/// with tiles of size `tile`.
pub open spec fn corner_place(c: Point, start: Point, tile: Vector) -> Point {
    Point {
        x: (start.x + quot(c.x * tile.x, CORNER_PARTS as int)) as i64,
        y: (start.y + quot(c.y * tile.y, CORNER_PARTS as int)) as i64,
    }
}

/// The image of a tile, placed for a map that starts at `start`.
pub open spec fn sprite_of(t: Tile, start: Point) -> Sprite {
    Sprite {
        src: t.tile_src,
        dest: Point {
            x: (start.x + t.tile_pos.x * t.tile_size.x) as i64,
            y: (start.y + t.tile_pos.y * t.tile_size.y) as i64,
        },
    }
}

/// The images of the tiles of a row that lie on `layer`, in their order.
pub open spec fn row_sprites(row: Seq<Tile>, start: Point, layer: i32) -> Seq<Sprite>
    decreases row.len(),
{
    if row.len() == 0 {
        Seq::empty()
    } else {
        let before = row_sprites(row.drop_last(), start, layer);
        if row.last().tile_layer == layer {
            before.push(sprite_of(row.last(), start))
        } else {
            before
        }
    }
}

/// The images of the tiles of a grid that lie on `layer`, row by row.
pub open spec fn layer_sprites(matrix: Seq<Seq<Tile>>, start: Point, layer: i32) -> Seq<Sprite>
    decreases matrix.len(),
{
    if matrix.len() == 0 {
        Seq::empty()
    } else {
        layer_sprites(matrix.drop_last(), start, layer) + row_sprites(matrix.last(), start, layer)
    }
}

/// The outline of a tile, placed for a map that starts at `start`.
pub open spec fn outline_of(t: Tile, start: Point) -> Rect {
    Rect {
        x: sprite_of(t, start).dest.x,
        y: sprite_of(t, start).dest.y,
        w: t.tile_size.x,
        h: t.tile_size.y,
    }
}

/// The outlines of the walls of a row that lie on `layer`, in their order.
pub open spec fn row_outlines(row: Seq<Tile>, start: Point, layer: i32) -> Seq<Rect>
    decreases row.len(),
{
    if row.len() == 0 {
        Seq::empty()
    } else {
        let before = row_outlines(row.drop_last(), start, layer);
        if row.last().tile_layer == layer && row.last().tile_type is Wall {
            before.push(outline_of(row.last(), start))
        } else {
            before
        }
    }
}

/// The outlines of the walls of a grid that lie on `layer`, row by row.
pub open spec fn layer_outlines(matrix: Seq<Seq<Tile>>, start: Point, layer: i32) -> Seq<Rect>
    decreases matrix.len(),
{
    if matrix.len() == 0 {
        Seq::empty()
    } else {
        layer_outlines(matrix.drop_last(), start, layer) + row_outlines(matrix.last(), start, layer)
    }
}

/// The views of the guards in `v`.
pub open spec fn guard_views(v: Seq<Guard>) -> Seq<GuardView> {
    v.map_values(|g: Guard| g@)
}

/// A map.
#[derive(Debug)]
pub struct TileMap {
    map_size: (i32, i32),
    map_start: Point,
    map_vel: Vector,
    map_tile_size: Vector,
    map_corners: Vec<Point>,
    map_matrix: Vec<Vec<Tile>>,
    map_walls: Vec<WallBox>,
    map_handle: u64,
    map_guards: Vec<Guard>,
    map_gold: Vec<Gold>,
}

impl View for TileMap {
    type V = TileMapView;

    closed spec fn view(&self) -> TileMapView {
        TileMapView {
            width: self.map_size.0 as int,
            height: self.map_size.1 as int,
            start: self.map_start,
            vel: self.map_vel,
            tile_size: self.map_tile_size,
            corners: self.map_corners@,
            matrix: self.map_matrix@.map_values(|r: Vec<Tile>| r@),
            walls: self.map_walls@,
            handle: self.map_handle,
            guards: guard_views(self.map_guards@),
            gold: self.map_gold@,
        }
    }
}

/// The total that the rooms ask for does not shrink as rooms are added.
pub proof fn lemma_spawn_total_grows(rooms: Seq<Room>, n: int)
    requires
        0 <= n <= rooms.len(),
    ensures
        spawn_total(rooms.take(n)) <= spawn_total(rooms),
    decreases rooms.len() - n,
{
    if n == rooms.len() {
        assert(rooms.take(n) =~= rooms);
    } else {
        lemma_spawn_total_grows(rooms, n + 1);
        assert(rooms.take(n + 1).drop_last() =~= rooms.take(n));
    }
}

/// Whether the rooms ask for more than a map can hold.
fn crowded(rooms: &Vec<Room>) -> (r: bool)
    ensures
        r == (spawn_total(rooms@) > MAX_SPAWN),
{
    let mut total: u64 = 0;
    let mut i: usize = 0;
    proof {
        assert(rooms@.take(0) =~= Seq::<Room>::empty());
    }
    while i < rooms.len()
        invariant
            i <= rooms.len(),
            total == spawn_total(rooms@.take(i as int)),
            total <= MAX_SPAWN,
        decreases rooms.len() - i,
    {
        let r = rooms[i];
        let ng: u64 = if r.guards > 0 { r.guards as u64 } else { 0 };
        let nc: u64 = if r.gold > 0 { r.gold as u64 } else { 0 };
        proof {
            assert(rooms@.take(i + 1).drop_last() =~= rooms@.take(i as int));
            assert(rooms@.take(i + 1).last() == r);
        }
        total = total + ng + nc;
        if total > MAX_SPAWN {
            proof {
                lemma_spawn_total_grows(rooms@, i + 1);
            }
            return true;
        }
        i += 1;
    }
    proof {
        assert(rooms@.take(i as int) =~= rooms@);
    }
    false
}

/// The two corners of a room.
fn room_corners(r: &Room, start: Point, tile: Vector) -> (c: (Point, Point))
    requires
        start_ok(start),
        tile_size_ok(tile),
    ensures
        c.0 == room_low(*r, start, tile),
        c.1 == room_high(*r, start, tile),
        c.0.in_world(),
        c.1.in_world(),
{
    assert(forall|a: i32, t: i64|
        0 <= t <= MAX_TILE ==> -0x8000_0000 * MAX_TILE <= #[trigger] (a * t) <= 0x8000_0000
            * MAX_TILE) by (nonlinear_arith);
    let x1 = r.x1 as i64 * tile.x;
    let y1 = r.y1 as i64 * tile.y;
    let x2 = r.x2 as i64 * tile.x;
    let y2 = r.y2 as i64 * tile.y;
    (Point { x: start.x + x1, y: start.y + y1 }, Point { x: start.x + x2, y: start.y + y2 })
}

/// Posts the guards of room `r`, naming their cones from `first` on.
fn staff_room(
    r: &Room,
    start: Point,
    tile: Vector,
    first: u64,
    guards: &mut Vec<Guard>,
)
    requires
        start_ok(start),
        tile_size_ok(tile),
        room_fault(*r, start, tile) is None,
        first + count(r.guards) <= MAX_SPAWN,
    ensures
        final(guards)@.len() == old(guards)@.len() + count(r.guards),
        forall|i: int| 0 <= i < old(guards)@.len() ==> final(guards)@[i] == old(guards)@[i],
        forall|i: int|
            old(guards)@.len() <= i < final(guards)@.len() ==> {
                &&& staffed(
                    (#[trigger] final(guards)@[i])@,
                    *r,
                    start,
                    tile,
                    first + (i - old(guards)@.len()),
                )
                &&& final(guards)@[i]@.wf()
            },
{
    let (low, high) = room_corners(r, start, tile);
    let mut k: i32 = 0;
    while k < r.guards
        invariant
            0 <= k,
            k <= count(r.guards),
            low == room_low(*r, start, tile),
            high == room_high(*r, start, tile),
            low.in_world(),
            high.in_world(),
            room_fault(*r, start, tile) is None,
            first + count(r.guards) <= MAX_SPAWN,
            guards@.len() == old(guards)@.len() + k,
            forall|i: int| 0 <= i < old(guards)@.len() ==> guards@[i] == old(guards)@[i],
            forall|i: int|
                old(guards)@.len() <= i < guards@.len() ==> {
                    &&& staffed(
                        (#[trigger] guards@[i])@,
                        *r,
                        start,
                        tile,
                        first + (i - old(guards)@.len()),
                    )
                    &&& guards@[i]@.wf()
                },
        decreases r.guards - k,
    {
        let g = Guard::new(low, high, r.patrol_points, first + k as u64);
        guards.push(g);
        k += 1;
    }
}

/// Lays out the gold of room `r`, naming the colliders from `first` on.
fn stock_room(r: &Room, start: Point, tile: Vector, first: u64, gold: &mut Vec<Gold>)
    requires
        start_ok(start),
        tile_size_ok(tile),
        room_fault(*r, start, tile) is None,
        first + count(r.gold) <= MAX_SPAWN,
    ensures
        final(gold)@.len() == old(gold)@.len() + count(r.gold),
        forall|i: int| 0 <= i < old(gold)@.len() ==> final(gold)@[i] == old(gold)@[i],
        forall|i: int|
            old(gold)@.len() <= i < final(gold)@.len() ==> {
                &&& stocked(#[trigger] final(gold)@[i], *r, start, tile, first + (i - old(gold)@.len()))
                &&& final(gold)@[i].pos.in_world()
            },
{
    let (low, high) = room_corners(r, start, tile);
    let mut k: i32 = 0;
    while k < r.gold
        invariant
            0 <= k,
            k <= count(r.gold),
            low == room_low(*r, start, tile),
            high == room_high(*r, start, tile),
            low.in_world(),
            high.in_world(),
            room_fault(*r, start, tile) is None,
            first + count(r.gold) <= MAX_SPAWN,
            gold@.len() == old(gold)@.len() + k,
            forall|i: int| 0 <= i < old(gold)@.len() ==> gold@[i] == old(gold)@[i],
            forall|i: int|
                old(gold)@.len() <= i < gold@.len() ==> {
                    &&& stocked(#[trigger] gold@[i], *r, start, tile, first + (i - old(gold)@.len()))
                    &&& gold@[i].pos.in_world()
                },
        decreases r.gold - k,
    {
        let c = Gold::new(low, high, first + k as u64);
        gold.push(c);
        k += 1;
    }
}

/// Why room `r` cannot be filled, if it cannot.
fn fault_of(r: &Room, start: Point, tile: Vector) -> (e: Option<LoadError>)
    requires
        start_ok(start),
        tile_size_ok(tile),
    ensures
        e == room_fault(*r, start, tile),
{
    if r.guards > 0 && r.patrol_points < 1 {
        return Some(LoadError::NoPatrol);
    }
    let (low, high) = room_corners(r, start, tile);
    if (r.guards > 0 || r.gold > 0) && !(low.x < high.x && low.y < high.y) {
        Some(LoadError::EmptyRoom)
    } else {
        None
    }
}

impl TileMap {
    #[verifier::type_invariant]
    spec fn inv(self) -> bool {
        self@.wf()
    }

    /// Loads a level from its text, for a map that starts at `startpos` with
    /// tiles of size `tile_size`, and fills its rooms with guards and gold
    /// at places drawn by chance.
    pub fn load(text: &[u8], startpos: Point, tile_size: Vector) -> (r: Result<TileMap, LoadError>)
        requires
            text@.len() <= MAX_TEXT,
            tile_size_ok(tile_size),
            start_ok(startpos),
        ensures
            match r {
                Err(e) => load_fault(text@, startpos, tile_size) == Some(e),
                Ok(map) => {
                    &&& load_fault(text@, startpos, tile_size) is None
                    &&& parse(text@, tile_size) matches Ok(level)
                    &&& map@.wf()
                    &&& map@.width == level.width
                    &&& map@.height == level.height
                    &&& map@.start == startpos
                    &&& map@.vel == (Vector { x: 0, y: 0 })
                    &&& map@.tile_size == tile_size
                    &&& map@.corners == level.corners
                    &&& map@.matrix == level.tiles
                    &&& map@.walls == level.walls
                    &&& map@.handle == spawn_total(level.rooms)
                    &&& populated(level.rooms, startpos, tile_size, map@.guards, map@.gold)
                },
            },
    {
        let level = match parse_level(text, tile_size) {
            Ok(level) => level,
            Err(e) => {
                return Err(e);
            },
        };
        let ghost lv = level@;
        proof {
            lemma_parse_ok(text@, tile_size);
        }
        let crate::level::Level { width, height, tiles, corners, walls, rooms } = level;
        if crowded(&rooms) {
            return Err(LoadError::Crowded);
        }
        let mut guards: Vec<Guard> = Vec::new();
        let mut gold: Vec<Gold> = Vec::new();
        let mut next: u64 = 0;
        let mut i: usize = 0;
        proof {
            assert(rooms@.take(0) =~= Seq::<Room>::empty());
            assert(rooms@.skip(0) =~= rooms@);
            assert(guard_views(guards@) =~= Seq::<GuardView>::empty());
        }
        while i < rooms.len()
            invariant
                i <= rooms.len(),
                start_ok(startpos),
                tile_size_ok(tile_size),
                parse(text@, tile_size) == Ok::<LevelView, LoadError>(lv),
                lv.rooms == rooms@,
                lv.width == width,
                lv.height == height,
                lv.corners == corners@,
                lv.walls == walls@,
                lv.tiles == tiles@.map_values(|r: Vec<Tile>| r@),
                forall|r: int, c: int|
                    0 <= r < lv.tiles.len() && 0 <= c < lv.tiles[r].len() ==> tile_ok(
                        #[trigger] lv.tiles[r][c],
                        tile_size,
                    ),
                forall|k: int| 0 <= k < lv.corners.len() ==> corner_ok(#[trigger] lv.corners[k]),
                spawn_total(rooms@) <= MAX_SPAWN,
                next == spawn_total(rooms@.take(i as int)),
                first_fault(rooms@, startpos, tile_size) == first_fault(
                    rooms@.skip(i as int),
                    startpos,
                    tile_size,
                ),
                populated(rooms@.take(i as int), startpos, tile_size, guard_views(guards@), gold@),
                forall|k: int| 0 <= k < guards@.len() ==> (#[trigger] guards@[k])@.wf(),
                forall|k: int| 0 <= k < gold@.len() ==> (#[trigger] gold@[k]).pos.in_world(),
                forall|k: int| 0 <= k < gold@.len() ==> 0 <= (#[trigger] gold@[k]).value <= 50,
                gold@.len() <= next,
            decreases rooms.len() - i,
        {
            let r = rooms[i];
            let ghost done = rooms@.take(i as int);
            let ghost more = rooms@.take(i + 1);
            let ghost old_guards = guards@;
            let ghost old_gold = gold@;
            proof {
                assert(rooms@.skip(i as int)[0] == r);
                assert(rooms@.skip(i as int).skip(1) =~= rooms@.skip(i + 1));
                assert(more.drop_last() =~= done);
                assert(more.last() == r);
                lemma_spawn_total_grows(rooms@, i + 1);
            }
            match fault_of(&r, startpos, tile_size) {
                Some(e) => {
                    return Err(e);
                },
                None => {},
            }
            let ng: u64 = if r.guards > 0 { r.guards as u64 } else { 0 };
            let nc: u64 = if r.gold > 0 { r.gold as u64 } else { 0 };
            staff_room(&r, startpos, tile_size, next, &mut guards);
            stock_room(&r, startpos, tile_size, next + ng, &mut gold);
            proof {
                let gv = guard_views(guards@);
                assert(gv.take(gv.len() - ng) =~= guard_views(old_guards));
                assert(gold@.take(gold@.len() - nc) =~= old_gold);
                assert forall|k: int| gv.len() - ng <= k < gv.len() implies staffed(
                    #[trigger] gv[k],
                    r,
                    startpos,
                    tile_size,
                    next + (k - (gv.len() - ng)),
                ) by {
                    assert(gv[k] == guards@[k]@);
                }
                assert forall|k: int| 0 <= k < gold@.len() implies 0 <= (#[trigger] gold@[k]).value
                    <= 50 by {
                    if k >= old_gold.len() {
                        assert(stocked(gold@[k], r, startpos, tile_size, next + ng + (k - old_gold.len())));
                    } else {
                        assert(gold@[k] == old_gold[k]);
                    }
                }
                assert(populated(more, startpos, tile_size, gv, gold@));
            }
            next = next + ng + nc;
            i += 1;
        }
        proof {
            assert(rooms@.take(i as int) =~= rooms@);
        }
        let map = TileMap {
            map_size: (width, height),
            map_start: startpos,
            map_vel: Vector { x: 0, y: 0 },
            map_tile_size: tile_size,
            map_corners: corners,
            map_matrix: tiles,
            map_walls: walls,
            map_handle: next,
            map_guards: guards,
            map_gold: gold,
        };
        proof {
            assert(map@.matrix == lv.tiles);
            assert forall|k: int| 0 <= k < map@.guards.len() implies (#[trigger] map@.guards[k]).wf() by {
                assert(map@.guards[k] == guards@[k]@);
            }
        }
        Ok(map)
    }

    /// One tick of the map, in which the player wants to go along `dir`.
    pub fn update(&mut self, dir: Vector)
        requires
            old(self)@.has_room(),
            is_intent(dir),
        ensures
            final(self)@ == old(self)@.scrolled(dir),
            final(self)@.wf(),
    {
        proof {
            use_type_invariant(&*self);
        }
        let vel = stride_of(Vector { x: -dir.x, y: -dir.y }, MAP_SPEED);
        assert((TileMapView { vel, ..self@ }).wf());
        self.map_vel = vel;
        self.map_start = self.map_start.offset(vel);
    }

    /// One tick of the gold, where `touched` says of each piece whether the
    /// player touches it. Returns what the touched pieces are worth.
    pub fn update_gold(&mut self, touched: &Vec<bool>) -> (collected: i32)
        requires
            old(self)@.gold_has_room(),
            touched@.len() == old(self)@.gold.len(),
        ensures
            final(self)@ == old(self)@.after_gold(touched@),
            final(self)@.wf(),
            collected == gain(old(self)@.gold, touched@),
    {
        let mut kept_gold: Vec<Gold> = Vec::new();
        let mut sum: i32 = 0;
        let mut i: usize = 0;
        let vel = self.map_vel;
        proof {
            use_type_invariant(&*self);
            assert(self.map_gold@.take(0) =~= Seq::<Gold>::empty());
            assert(touched@.take(0) =~= Seq::<bool>::empty());
        }
        while i < self.map_gold.len()
            invariant
                i <= self.map_gold.len(),
                self@.wf(),
                self@.gold_has_room(),
                vel == self.map_vel,
                self.map_gold@.len() == touched@.len(),
                kept_gold@ == kept(self.map_gold@.take(i as int), touched@.take(i as int), vel),
                sum == gain(self.map_gold@.take(i as int), touched@.take(i as int)),
                0 <= sum <= 50 * i,
                kept_gold@.len() <= i,
                forall|k: int| 0 <= k < kept_gold@.len() ==> (#[trigger] kept_gold@[k]).pos.in_world(),
                forall|k: int| 0 <= k < kept_gold@.len() ==> 0 <= (#[trigger] kept_gold@[k]).value <= 50,
            decreases self.map_gold.len() - i,
        {
            let mut piece = self.map_gold[i];
            proof {
                assert(self@.gold[i as int] == piece);
                assert(self.map_gold@.take(i + 1).drop_last() =~= self.map_gold@.take(i as int));
                assert(touched@.take(i + 1).drop_last() =~= touched@.take(i as int));
            }
            let got = piece.update(touched[i], vel);
            if !touched[i] {
                kept_gold.push(piece);
            }
            sum = sum + got;
            i += 1;
        }
        proof {
            assert(self.map_gold@.take(i as int) =~= self.map_gold@);
            assert(touched@.take(i as int) =~= touched@);
        }
        assert((TileMapView { gold: kept_gold@, ..self@ }).wf());
        self.map_gold = kept_gold;
        sum
    }

    /// One tick of the guards, where `senses` holds for each guard what the
    /// world tells it. Returns whether any guard has caught the player.
    pub fn update_guards(&mut self, senses: &Vec<GuardSense>) -> (caught: bool)
        requires
            old(self)@.guards_have_room(),
            senses@.len() == old(self)@.guards.len(),
            forall|i: int| 0 <= i < senses@.len() ==> (#[trigger] senses@[i]).turned.is_heading(),
        ensures
            final(self)@ == old(self)@.after_guards(senses@),
            final(self)@.wf(),
            caught == any_contact(senses@),
    {
        proof {
            use_type_invariant(&*self);
        }
        let vel = self.map_vel;
        let ghost start = self@;
        let ghost before = self.map_guards@;
        let mut guards: Vec<Guard> = Vec::new();
        proof {
            assert(guard_views(guards@) =~= Seq::<GuardView>::empty());
        }
        assert((TileMapView { guards: Seq::<GuardView>::empty(), ..self@ }).wf());
        core::mem::swap(&mut self.map_guards, &mut guards);
        proof {
            assert forall|k: int| 0 <= k < before.len() implies (#[trigger] before[k])@.has_room()
                && before[k]@.wf() by {
                assert(start.guards[k] == before[k]@);
            }
        }
        let mut res = false;
        let mut i: usize = 0;
        while i < guards.len()
            invariant
                i <= guards.len(),
                guards@.len() == before.len(),
                senses@.len() == before.len(),
                vel.within(MAP_SPEED as int),
                forall|k: int|
                    0 <= k < senses@.len() ==> (#[trigger] senses@[k]).turned.is_heading(),
                forall|k: int| 0 <= k < before.len() ==> (#[trigger] before[k])@.has_room(),
                forall|k: int| 0 <= k < before.len() ==> (#[trigger] before[k])@.wf(),
                forall|k: int|
                    0 <= k < i ==> (#[trigger] guards@[k])@ == before[k]@.shifted(vel).update(
                        senses@[k],
                    ),
                forall|k: int| 0 <= k < i ==> (#[trigger] guards@[k])@.wf(),
                forall|k: int| i <= k < before.len() ==> (#[trigger] guards@[k]) == before[k],
                res == any_contact(senses@.take(i as int)),
            decreases guards.len() - i,
        {
            assert(before[i as int]@.has_room());
            guards[i].shift(vel);
            let c = guards[i].update(senses[i]);
            proof {
                let done = senses@.take(i as int);
                let more = senses@.take(i + 1);
                if any_contact(done) {
                    let w = choose|w: int| 0 <= w < done.len() && (#[trigger] done[w]).contact;
                    assert(more[w].contact);
                }
                if c {
                    assert(more[i as int].contact);
                }
                if any_contact(more) {
                    let w = choose|w: int| 0 <= w < more.len() && (#[trigger] more[w]).contact;
                    if w < i {
                        assert(done[w].contact);
                    }
                }
            }
            res = res || c;
            i += 1;
        }
        proof {
            assert(senses@.take(i as int) =~= senses@);
            assert(guard_views(guards@) =~= start.after_guards(senses@).guards);
            assert forall|k: int| 0 <= k < guard_views(guards@).len() implies (#[trigger] guard_views(
                guards@,
            )[k]).wf() by {
                assert(guard_views(guards@)[k] == guards@[k]@);
            }
        }
        assert((TileMapView { guards: guard_views(guards@), ..self@ }).wf());
        self.map_guards = guards;
        res
    }

    /// The corner points, where they now lie in the world.
    pub fn get_corners(&self) -> (corners: Vec<Point>)
        ensures
            corners@ == self@.world_corners(),
    {
        proof {
            use_type_invariant(self);
        }
        let mut out: Vec<Point> = Vec::new();
        let mut i: usize = 0;
        while i < self.map_corners.len()
            invariant
                i <= self.map_corners.len(),
                self@.wf(),
                out@.len() == i,
                forall|k: int|
                    0 <= k < i ==> #[trigger] out@[k] == corner_place(
                        self.map_corners@[k],
                        self.map_start,
                        self.map_tile_size,
                    ),
            decreases self.map_corners.len() - i,
        {
            let c = self.map_corners[i];
            let t = self.map_tile_size;
            assert(corner_ok(self@.corners[i as int]));
            assert(0 <= c.x * t.x <= CORNER_PARTS * (MAX_TEXT + 1) * MAX_TILE && 0 <= c.y * t.y
                <= CORNER_PARTS * (MAX_TEXT + 1) * MAX_TILE) by (nonlinear_arith)
                requires
                    0 <= c.x <= CORNER_PARTS * (MAX_TEXT + 1),
                    0 <= c.y <= CORNER_PARTS * (MAX_TEXT + 1),
                    0 <= t.x <= MAX_TILE,
                    0 <= t.y <= MAX_TILE,
            ;
            proof {
                crate::geom::lemma_quot_bound(c.x * t.x, CORNER_PARTS as int);
                crate::geom::lemma_quot_bound(c.y * t.y, CORNER_PARTS as int);
            }
            out.push(
                Point {
                    x: self.map_start.x + (c.x * t.x) / CORNER_PARTS,
                    y: self.map_start.y + (c.y * t.y) / CORNER_PARTS,
                },
            );
            i += 1;
        }
        proof {
            assert(out@ =~= self@.world_corners());
        }
        out
    }

    /// The images of the tiles of row `r` that lie on `layer`, appended to
    /// `out`.
    fn draw_row(&self, r: usize, layer: i32, out: &mut Vec<Sprite>)
        requires
            r < self@.matrix.len(),
        ensures
            final(out)@ == old(out)@ + row_sprites(self@.matrix[r as int], self@.start, layer),
    {
        let row = &self.map_matrix[r];
        let mut c: usize = 0;
        proof {
            use_type_invariant(self);
            assert(self@.matrix[r as int] == row@);
            assert(row@.take(0) =~= Seq::<Tile>::empty());
            assert(old(out)@ + Seq::<Sprite>::empty() =~= old(out)@);
        }
        while c < row.len()
            invariant
                c <= row.len(),
                self@.wf(),
                r < self@.matrix.len(),
                self@.matrix[r as int] == row@,
                out@ == old(out)@ + row_sprites(row@.take(c as int), self.map_start, layer),
            decreases row.len() - c,
        {
            let t = row[c];
            proof {
                assert(row@.take(c + 1).drop_last() =~= row@.take(c as int));
                assert(tile_ok(self@.matrix[r as int][c as int], self@.tile_size));
                lemma_tile_place(t, self.map_start, self.map_tile_size);
            }
            if t.tile_layer == layer {
                out.push(t.drawparam(self.map_start));
                proof {
                    assert(out@ =~= old(out)@ + row_sprites(row@.take(c + 1), self.map_start, layer));
                }
            }
            c += 1;
        }
        proof {
            assert(row@.take(c as int) =~= row@);
        }
    }

    /// The images of the tiles that lie on `layer`, row by row. The layer
    /// behind the actors is `BACK_LAYER`, the one in front `FRONT_LAYER`.
    pub fn draw(&self, layer: i32) -> (sprites: Vec<Sprite>)
        ensures
            sprites@ == layer_sprites(self@.matrix, self@.start, layer),
    {
        let mut out: Vec<Sprite> = Vec::new();
        let mut r: usize = 0;
        proof {
            assert(self@.matrix.take(0) =~= Seq::<Seq<Tile>>::empty());
        }
        while r < self.map_matrix.len()
            invariant
                r <= self.map_matrix.len(),
                self.map_matrix@.len() == self@.matrix.len(),
                out@ == layer_sprites(self@.matrix.take(r as int), self@.start, layer),
            decreases self.map_matrix.len() - r,
        {
            proof {
                assert(self@.matrix.take(r + 1).drop_last() =~= self@.matrix.take(r as int));
            }
            self.draw_row(r, layer, &mut out);
            r += 1;
        }
        proof {
            assert(self@.matrix.take(r as int) =~= self@.matrix);
        }
        out
    }

    /// The outlines of the walls of row `r` that lie on `layer`, appended to
    /// `out`.
    fn outline_row(&self, r: usize, layer: i32, out: &mut Vec<Rect>)
        requires
            r < self@.matrix.len(),
        ensures
            final(out)@ == old(out)@ + row_outlines(self@.matrix[r as int], self@.start, layer),
    {
        let row = &self.map_matrix[r];
        let mut c: usize = 0;
        proof {
            use_type_invariant(self);
            assert(self@.matrix[r as int] == row@);
            assert(row@.take(0) =~= Seq::<Tile>::empty());
            assert(old(out)@ + Seq::<Rect>::empty() =~= old(out)@);
        }
        while c < row.len()
            invariant
                c <= row.len(),
                self@.wf(),
                r < self@.matrix.len(),
                self@.matrix[r as int] == row@,
                out@ == old(out)@ + row_outlines(row@.take(c as int), self.map_start, layer),
            decreases row.len() - c,
        {
            let t = row[c];
            proof {
                assert(row@.take(c + 1).drop_last() =~= row@.take(c as int));
                assert(tile_ok(self@.matrix[r as int][c as int], self@.tile_size));
                lemma_tile_place(t, self.map_start, self.map_tile_size);
            }
            let is_wall = match t.tile_type {
                TileType::Wall(_, _) => true,
                TileType::Floor(_, _) => false,
            };
            if t.tile_layer == layer && is_wall {
                let at = t.drawparam(self.map_start).dest;
                out.push(Rect { x: at.x, y: at.y, w: t.tile_size.x, h: t.tile_size.y });
                proof {
                    assert(out@ =~= old(out)@ + row_outlines(row@.take(c + 1), self.map_start, layer));
                }
            }
            c += 1;
        }
        proof {
            assert(row@.take(c as int) =~= row@);
        }
    }

    /// The outlines of the walls that lie on `layer`, row by row.
    pub fn draw_mesh(&self, layer: i32) -> (outlines: Vec<Rect>)
        ensures
            outlines@ == layer_outlines(self@.matrix, self@.start, layer),
    {
        let mut out: Vec<Rect> = Vec::new();
        let mut r: usize = 0;
        proof {
            assert(self@.matrix.take(0) =~= Seq::<Seq<Tile>>::empty());
        }
        while r < self.map_matrix.len()
            invariant
                r <= self.map_matrix.len(),
                self.map_matrix@.len() == self@.matrix.len(),
                out@ == layer_outlines(self@.matrix.take(r as int), self@.start, layer),
            decreases self.map_matrix.len() - r,
        {
            proof {
                assert(self@.matrix.take(r + 1).drop_last() =~= self@.matrix.take(r as int));
            }
            self.outline_row(r, layer, &mut out);
            r += 1;
        }
        proof {
            assert(self@.matrix.take(r as int) =~= self@.matrix);
        }
        out
    }

    /// The pieces of gold that are still on the map, in their order.
    pub fn draw_gold(&self) -> (gold: &Vec<Gold>)
        ensures
            gold@ == self@.gold,
    {
        &self.map_gold
    }

    /// The guards, in their order.
    pub fn draw_guards(&self) -> (guards: &Vec<Guard>)
        ensures
            guard_views(guards@) == self@.guards,
    {
        &self.map_guards
    }

    /// The cones that the guards watch, in the guards' order.
    pub fn draw_guard_vision(&self) -> (cones: Vec<Cone>)
        ensures
            cones@.len() == self@.guards.len(),
            forall|i: int| 0 <= i < cones@.len() ==> #[trigger] cones@[i] == self@.guards[i].triangle,
    {
        let mut out: Vec<Cone> = Vec::new();
        let mut i: usize = 0;
        while i < self.map_guards.len()
            invariant
                i <= self.map_guards.len(),
                out@.len() == i,
                forall|k: int| 0 <= k < i ==> #[trigger] out@[k] == self.map_guards@[k]@.triangle,
            decreases self.map_guards.len() - i,
        {
            out.push(self.map_guards[i].draw_vision());
            i += 1;
        }
        out
    }

    /// The boxes of the map's collision shape, each counted from the map's
    /// start.
    pub fn walls(&self) -> (walls: &Vec<WallBox>)
        ensures
            walls@ == self@.walls,
    {
        &self.map_walls
    }

    /// The name of the map's collider.
    pub fn map_handle(&self) -> (h: u64)
        ensures
            h == self@.handle,
    {
        self.map_handle
    }

    /// Where the grid's top-left corner lies.
    pub fn start(&self) -> (p: Point)
        ensures
            p == self@.start,
    {
        self.map_start
    }

    /// How the map moved in the last tick.
    pub fn velocity(&self) -> (v: Vector)
        ensures
            v == self@.vel,
    {
        self.map_vel
    }

    /// Width and height of the grid, in tiles.
    pub fn size(&self) -> (s: (i32, i32))
        ensures
            s.0 == self@.width,
            s.1 == self@.height,
    {
        self.map_size
    }

    /// The tiles, row by row.
    pub fn tiles(&self) -> (m: &Vec<Vec<Tile>>)
        ensures
            m@.map_values(|r: Vec<Tile>| r@) == self@.matrix,
    {
        &self.map_matrix
    }

    /// Whether one tick cannot take the map's start, its gold or its guards
    /// out of the world.
    pub fn is_roomy(&self) -> (r: bool)
        ensures
            r == (self@.has_room() && self@.gold_has_room() && self@.guards_have_room()),
    {
        if !self.map_start.is_roomy() {
            return false;
        }
        let mut i: usize = 0;
        while i < self.map_gold.len()
            invariant
                i <= self.map_gold.len(),
                forall|k: int| 0 <= k < i ==> (#[trigger] self.map_gold@[k]).pos.has_room(),
            decreases self.map_gold.len() - i,
        {
            if !self.map_gold[i].pos.is_roomy() {
                assert(!self@.gold[i as int].pos.has_room());
                return false;
            }
            i += 1;
        }
        let mut j: usize = 0;
        while j < self.map_guards.len()
            invariant
                j <= self.map_guards.len(),
                self@.gold_has_room(),
                forall|k: int| 0 <= k < j ==> (#[trigger] self.map_guards@[k])@.has_room(),
            decreases self.map_guards.len() - j,
        {
            if !self.map_guards[j].is_roomy() {
                assert(self@.guards[j as int] == self.map_guards@[j as int]@);
                return false;
            }
            j += 1;
        }
        proof {
            assert forall|k: int| 0 <= k < self@.guards.len() implies (#[trigger] self@.guards[k]).has_room() by {
                assert(self@.guards[k] == self.map_guards@[k]@);
            }
        }
        true
    }
}

/// A tile of a level can be placed on any map that starts in the world.
pub proof fn lemma_tile_place(t: Tile, start: Point, size: Vector)
    requires
        tile_ok(t, size),
        tile_size_ok(size),
        start.in_world(),
    ensures
        t.can_place(start),
{
    assert(0 <= t.tile_pos.x * size.x <= MAX_TEXT * MAX_TILE && 0 <= t.tile_pos.y * size.y
        <= MAX_TEXT * MAX_TILE) by (nonlinear_arith)
        requires
            0 <= t.tile_pos.x <= MAX_TEXT,
            0 <= t.tile_pos.y <= MAX_TEXT,
            0 <= size.x <= MAX_TILE,
            0 <= size.y <= MAX_TILE,
    ;
}

/// The guards of a map catch the player in a tick if and only if the cone
/// of one of them touches the player's collider in that tick. A map without
/// guards never catches, and a tick without contact catches nothing,
/// whatever the tick before did.
pub proof fn lemma_alarm_is_not_kept(map: TileMapView, first: Seq<GuardSense>, second: Seq<GuardSense>)
    requires
        forall|i: int| 0 <= i < second.len() ==> !(#[trigger] second[i]).contact,
    ensures
        !any_contact(Seq::<GuardSense>::empty()),
        !any_contact(second),
        map.after_guards(first).after_guards(second).guards.len() == map.guards.len(),
{
}

/// A piece that the player touches gives its value, one that it does not
/// touch gives nothing, and a piece keeps its value as it moves.
pub proof fn lemma_piece_gain(piece: Gold, touched: bool, vel: Vector)
    ensures
        gain(seq![piece], seq![touched]) == if touched { piece.value as int } else { 0 },
        piece.moved(vel).value == piece.value,
        piece.moved(vel).handle == piece.handle,
{
    assert(seq![piece].drop_last() =~= Seq::<Gold>::empty());
    assert(gain(seq![piece].drop_last(), seq![touched].drop_last()) == 0);
}

/// The pieces left after a tick are the untouched pieces, and no others:
/// every untouched piece is left, moved with the map, and every piece left
/// is an untouched piece, moved with the map, with the value it had.
pub proof fn lemma_kept_are_the_untouched(gold: Seq<Gold>, touched: Seq<bool>, vel: Vector)
    requires
        gold.len() == touched.len(),
    ensures
        forall|i: int|
            0 <= i < gold.len() && !touched[i] ==> kept(gold, touched, vel).contains(
                #[trigger] gold[i].moved(vel),
            ),
        forall|j: int|
            0 <= j < kept(gold, touched, vel).len() ==> exists|i: int|
                0 <= i < gold.len() && !touched[i] && #[trigger] gold[i].moved(vel) == (
                #[trigger] kept(gold, touched, vel)[j]),
    decreases gold.len(),
{
    if gold.len() > 0 {
        let g0 = gold.drop_last();
        let t0 = touched.drop_last();
        lemma_kept_are_the_untouched(g0, t0, vel);
        let before = kept(g0, t0, vel);
        let now = kept(gold, touched, vel);
        let last = gold.len() - 1;
        assert forall|i: int| 0 <= i < gold.len() && !touched[i] implies now.contains(
            #[trigger] gold[i].moved(vel),
        ) by {
            if i < last {
                assert(g0[i] == gold[i] && t0[i] == touched[i]);
                assert(before.contains(g0[i].moved(vel)));
                let k = choose|k: int| 0 <= k < before.len() && before[k] == g0[i].moved(vel);
                assert(now[k] == before[k]);
            } else {
                assert(now[now.len() - 1] == gold[i].moved(vel));
            }
        }
        assert forall|j: int| 0 <= j < now.len() implies exists|i: int|
            0 <= i < gold.len() && !touched[i] && #[trigger] gold[i].moved(vel) == (
            #[trigger] now[j]) by {
            if j < before.len() {
                assert(now[j] == before[j]);
                let i = choose|i: int|
                    0 <= i < g0.len() && !t0[i] && #[trigger] g0[i].moved(vel) == before[j];
                assert(g0[i] == gold[i] && t0[i] == touched[i]);
                assert(gold[i].moved(vel) == now[j]);
            } else {
                assert(!touched[last]);
                assert(gold[last].moved(vel) == now[j]);
            }
        }
    }
}

/// What the pieces of `gold` are worth together.
pub open spec fn total(gold: Seq<Gold>) -> int
    decreases gold.len(),
{
    if gold.len() == 0 {
        0
    } else {
        total(gold.drop_last()) + gold.last().value
    }
}

/// How many of the pieces are touched.
pub open spec fn touches(touched: Seq<bool>) -> nat
    decreases touched.len(),
{
    if touched.len() == 0 {
        0
    } else {
        touches(touched.drop_last()) + if touched.last() { 1nat } else { 0nat }
    }
}

/// One tick of the gold: for each piece whether the player touches it, and
/// how the map moves.
pub struct GoldTick {
    pub touched: Seq<bool>,
    pub vel: Vector,
}

/// The gold that is left after the ticks of `ticks`, one after another.
pub open spec fn gold_after(gold: Seq<Gold>, ticks: Seq<GoldTick>) -> Seq<Gold>
    decreases ticks.len(),
{
    if ticks.len() == 0 {
        gold
    } else {
        kept(gold_after(gold, ticks.drop_last()), ticks.last().touched, ticks.last().vel)
    }
}

/// What the player gains from the gold over the ticks of `ticks`.
pub open spec fn gain_over(gold: Seq<Gold>, ticks: Seq<GoldTick>) -> int
    decreases ticks.len(),
{
    if ticks.len() == 0 {
        0
    } else {
        gain_over(gold, ticks.drop_last()) + gain(
            gold_after(gold, ticks.drop_last()),
            ticks.last().touched,
        )
    }
}

/// Whether each tick of `ticks` says of each piece that is left at that
/// tick whether it is touched.
pub open spec fn ticks_fit(gold: Seq<Gold>, ticks: Seq<GoldTick>) -> bool
    decreases ticks.len(),
{
    ticks.len() == 0 || (ticks_fit(gold, ticks.drop_last()) && ticks.last().touched.len()
        == gold_after(gold, ticks.drop_last()).len())
}

/// In one tick no gold is lost or made: what the player gains and what the
/// pieces left on the map are worth is what the pieces were worth before.
/// The touched pieces are gone and every other piece is left.
pub proof fn lemma_gold_conserved(gold: Seq<Gold>, touched: Seq<bool>, vel: Vector)
    requires
        gold.len() == touched.len(),
    ensures
        gain(gold, touched) + total(kept(gold, touched, vel)) == total(gold),
        kept(gold, touched, vel).len() + touches(touched) == gold.len(),
    decreases gold.len(),
{
    if gold.len() > 0 {
        lemma_gold_conserved(gold.drop_last(), touched.drop_last(), vel);
        if !touched.last() {
            let before = kept(gold.drop_last(), touched.drop_last(), vel);
            assert(before.push(gold.last().moved(vel)).drop_last() =~= before);
        }
    }
}

/// A tick in which the player touches no gold gives the player nothing and
/// leaves every piece on the map, moved with the map.
pub proof fn lemma_untouched_gold_stays(gold: Seq<Gold>, touched: Seq<bool>, vel: Vector)
    requires
        gold.len() == touched.len(),
        forall|i: int| 0 <= i < touched.len() ==> !touched[i],
    ensures
        gain(gold, touched) == 0,
        kept(gold, touched, vel) == Seq::new(gold.len(), |i: int| gold[i].moved(vel)),
    decreases gold.len(),
{
    if gold.len() > 0 {
        lemma_untouched_gold_stays(gold.drop_last(), touched.drop_last(), vel);
    }
    assert(kept(gold, touched, vel) =~= Seq::new(gold.len(), |i: int| gold[i].moved(vel)));
}

/// Over any run of ticks the player gains exactly what the pieces that have
/// left the map were worth.
pub proof fn lemma_gold_conserved_over(gold: Seq<Gold>, ticks: Seq<GoldTick>)
    requires
        ticks_fit(gold, ticks),
    ensures
        gain_over(gold, ticks) == total(gold) - total(gold_after(gold, ticks)),
    decreases ticks.len(),
{
    if ticks.len() > 0 {
        lemma_gold_conserved_over(gold, ticks.drop_last());
        lemma_gold_conserved(
            gold_after(gold, ticks.drop_last()),
            ticks.last().touched,
            ticks.last().vel,
        );
    }
}

} // verus!
