//! The level format: a header line with the grid's width and height, the
//! rows of the grid, one byte per tile, and one line per room.
//!
//! Every number of a level text is a whole number. The grid's width and
//! height are whole tiles, and so are the corners of a room: a room line
//! with a corner such as `1.5,2` is turned down as `BadRoom`, and a header
//! such as `3.0 3.0` as `BadHeader`.

use vstd::prelude::*;
use crate::anim::Sprite;
use crate::geom::{fits, Point, Rect, Vector, UNIT};
use crate::text::{
    fields, lemma_lines_bound, lines, number, parse_number, split, split_lines, views,
};

verus! {

/// The longest level text that can be loaded, in bytes.
pub const MAX_TEXT: usize = 0x7fff_ffff;

/// The largest side of a tile, in units.
pub const MAX_TILE: i64 = 0x10_0000;

/// Parts in which a corner's place inside its tile is counted.
pub const CORNER_PARTS: i64 = 32;

/// Half the side of a wall's box.
pub const WALL_HALF: i64 = 16 * UNIT;

/// Half the height of a thin wall's box.
pub const THIN_HALF: i64 = 8 * UNIT;

/// The layer drawn behind the actors.
pub const BACK_LAYER: i32 = 1;

/// The layer drawn in front of the actors.
pub const FRONT_LAYER: i32 = 2;

/// What a tile is, with its cell on the sprite sheet and its layer.
#[derive(Clone, Copy, Debug, PartialEq, Eq, Structural)]
pub enum TileType {
    Floor(Rect, i32),
    Wall(Rect, i32),
}

/// One tile of the grid.
#[derive(Clone, Copy, Debug, PartialEq, Eq, Structural)]
pub struct Tile {
    pub tile_type: TileType,
    /// The cell of the sprite sheet that shows the tile.
    pub tile_src: Rect,
    pub tile_layer: i32,
    /// Column and row in the grid.
    pub tile_pos: Point,
    /// Width and height of a tile.
    pub tile_size: Vector,
}

/// A box of the map's collision shape: its centre, counted from the map's
/// origin, and half its width and height.
#[derive(Clone, Copy, Debug, PartialEq, Eq, Structural)]
pub struct WallBox {
    pub center: Point,
    pub half: Vector,
}

/// A room line: two corners in whole tiles, and how many guards, patrol
/// points for each guard, and pieces of gold the room gets.
#[derive(Clone, Copy, Debug, PartialEq, Eq, Structural)]
pub struct Room {
    pub x1: i32,
    pub y1: i32,
    pub x2: i32,
    pub y2: i32,
    pub guards: i32,
    pub patrol_points: i32,
    pub gold: i32,
}

/// Why a level text was turned down.
#[derive(Clone, Copy, Debug, PartialEq, Eq, Structural)]
pub enum LoadError {
    /// The text has no line at all.
    MissingHeader,
    /// The first line does not open with two whole numbers, one space apart.
    BadHeader,
    /// The text ends before the grid does.
    MissingRow,
    /// A room line lacks a field, or holds one that is no whole number.
    BadRoom,
    /// A room that gets guards gives them no patrol point.
    NoPatrol,
    /// A room that gets guards or gold has no inside.
    EmptyRoom,
    /// The rooms ask for more guards and gold than a map can hold.
    Crowded,
}

/// What a byte of the grid stands for.
#[derive(Clone, Copy, Debug, PartialEq, Eq, Structural)]
pub struct Glyph {
    pub wall: bool,
    /// Column and row of the tile's cell on the sprite sheet.
    pub col: i64,
    pub row: i64,
    pub layer: i32,
    /// Where in the tile its corner point lies, in parts of a tile.
    pub corner: Option<Point>,
}

pub open spec fn wall_glyph(col: i64, row: i64, layer: i32, corner: Option<Point>) -> Glyph {
    Glyph { wall: true, col, row, layer, corner }
}

/// The meaning of each byte of the grid; `None` for a byte that has none.
pub open spec fn glyph(c: u8) -> Option<Glyph> {
    if c == 0x31 {
        Some(wall_glyph(0, 0, 2, Some(Point { x: 12, y: 12 })))
    } else if c == 0x32 {
        Some(wall_glyph(1, 0, 1, None))
    } else if c == 0x33 {
        Some(wall_glyph(2, 0, 2, Some(Point { x: 20, y: 12 })))
    } else if c == 0x34 {
        Some(wall_glyph(3, 0, 1, Some(Point { x: 32, y: 12 })))
    } else if c == 0x35 {
        Some(wall_glyph(4, 0, 1, Some(Point { x: 0, y: 12 })))
    } else if c == 0x36 {
        Some(wall_glyph(0, 1, 1, None))
    } else if c == 0x37 {
        Some(wall_glyph(1, 1, 1, None))
    } else if c == 0x38 {
        Some(wall_glyph(2, 1, 1, None))
    } else if c == 0x39 {
        Some(wall_glyph(3, 1, 1, Some(Point { x: 32, y: 0 })))
    } else if c == 0x41 {
        Some(wall_glyph(4, 1, 1, Some(Point { x: 0, y: 0 })))
    } else if c == 0x42 {
        Some(wall_glyph(0, 2, 1, Some(Point { x: 12, y: 0 })))
    } else if c == 0x43 {
        Some(wall_glyph(1, 2, 2, None))
    } else if c == 0x44 {
        Some(wall_glyph(2, 2, 1, Some(Point { x: 20, y: 0 })))
    } else if c == 0x20 {
        Some(Glyph { wall: false, col: 3, row: 2, layer: 1, corner: None })
    } else {
        None
    }
}

/// Whether `size` is a tile size that levels can be laid out with.
pub open spec fn tile_size_ok(size: Vector) -> bool {
    0 <= size.x <= MAX_TILE && 0 <= size.y <= MAX_TILE
}

/// Whether `size` is a tile size that levels can be laid out with.
pub fn is_tile_size(size: Vector) -> (ok: bool)
    ensures
        ok == tile_size_ok(size),
{
    0 <= size.x && size.x <= MAX_TILE && 0 <= size.y && size.y <= MAX_TILE
}

/// The tile that `g` puts in column `x` of row `y`.
pub open spec fn tile_at(g: Glyph, x: int, y: int, size: Vector) -> Tile {
    let src = Rect {
        x: (g.col * size.x) as i64,
        y: (g.row * size.y) as i64,
        w: size.x,
        h: size.y,
    };
    Tile {
        tile_type: if g.wall {
            TileType::Wall(src, g.layer)
        } else {
            TileType::Floor(src, g.layer)
        },
        tile_src: src,
        tile_layer: g.layer,
        tile_pos: Point { x: x as i64, y: y as i64 },
        tile_size: size,
    }
}

/// The box of a wall in column `x` of row `y`: a whole tile's, or for a wall
/// of the front layer the lower half's.
pub open spec fn wall_at(g: Glyph, x: int, y: int, size: Vector) -> WallBox {
    if g.layer != FRONT_LAYER {
        WallBox {
            center: Point { x: (x * size.x) as i64, y: (y * size.y) as i64 },
            half: Vector { x: WALL_HALF, y: WALL_HALF },
        }
    } else {
        WallBox {
            center: Point { x: (x * size.x) as i64, y: (y * size.y + WALL_HALF) as i64 },
            half: Vector { x: WALL_HALF, y: THIN_HALF },
        }
    }
}

/// The corner point of a tile in column `x` of row `y`, in parts of a tile
/// from the grid's origin.
pub open spec fn corner_at(inset: Point, x: int, y: int) -> Point {
    Point { x: (CORNER_PARTS * x + inset.x) as i64, y: (CORNER_PARTS * y + inset.y) as i64 }
}

/// The tiles of row `y`, in the order of its bytes. A byte without a meaning
/// gives no tile and still takes its column.
pub open spec fn row_tiles(line: Seq<u8>, y: int, size: Vector) -> Seq<Tile>
    decreases line.len(),
{
    if line.len() == 0 {
        Seq::empty()
    } else {
        let before = row_tiles(line.drop_last(), y, size);
        match glyph(line.last()) {
            Some(g) => before.push(tile_at(g, line.len() - 1, y, size)),
            None => before,
        }
    }
}

/// The boxes of the walls of row `y`, in the order of its bytes.
pub open spec fn row_walls(line: Seq<u8>, y: int, size: Vector) -> Seq<WallBox>
    decreases line.len(),
{
    if line.len() == 0 {
        Seq::empty()
    } else {
        let before = row_walls(line.drop_last(), y, size);
        match glyph(line.last()) {
            Some(g) => if g.wall {
                before.push(wall_at(g, line.len() - 1, y, size))
            } else {
                before
            },
            None => before,
        }
    }
}

/// The corner points of row `y`, in the order of its bytes.
pub open spec fn row_corners(line: Seq<u8>, y: int) -> Seq<Point>
    decreases line.len(),
{
    if line.len() == 0 {
        Seq::empty()
    } else {
        let before = row_corners(line.drop_last(), y);
        match glyph(line.last()) {
            Some(g) => match g.corner {
                Some(inset) => before.push(corner_at(inset, line.len() - 1, y)),
                None => before,
            },
            None => before,
        }
    }
}

/// The tiles of a grid, row by row.
pub open spec fn grid_tiles(rows: Seq<Seq<u8>>, size: Vector) -> Seq<Seq<Tile>> {
    Seq::new(rows.len(), |y: int| row_tiles(rows[y], y, size))
}

/// The boxes of all walls of a grid, row by row.
pub open spec fn grid_walls(rows: Seq<Seq<u8>>, size: Vector) -> Seq<WallBox>
    decreases rows.len(),
{
    if rows.len() == 0 {
        Seq::empty()
    } else {
        grid_walls(rows.drop_last(), size) + row_walls(rows.last(), rows.len() - 1, size)
    }
}

/// The corner points of a grid, row by row.
pub open spec fn grid_corners(rows: Seq<Seq<u8>>) -> Seq<Point>
    decreases rows.len(),
{
    if rows.len() == 0 {
        Seq::empty()
    } else {
        grid_corners(rows.drop_last()) + row_corners(rows.last(), rows.len() - 1)
    }
}

/// Width and height as the header line gives them: its first two fields,
/// one space apart, each a whole number of tiles. A field with a fraction
/// is no number here.
pub open spec fn header(line: Seq<u8>) -> Option<(int, int)> {
    let f = fields(line, 0x20);
    if f.len() < 2 {
        None
    } else {
        match (number(f[0]), number(f[1])) {
            (Some(w), Some(h)) => Some((w, h)),
            _ => None,
        }
    }
}

/// The two numbers of a corner, a comma apart, each a whole number of tiles.
/// A corner inside a tile, such as `1.5,2`, is not read.
pub open spec fn pair(field: Seq<u8>) -> Option<(int, int)> {
    let f = fields(field, 0x2c);
    if f.len() < 2 {
        None
    } else {
        match (number(f[0]), number(f[1])) {
            (Some(a), Some(b)) => Some((a, b)),
            _ => None,
        }
    }
}

/// The room that a room line describes: five fields one space apart, two
/// corners in whole tiles and three whole counts. Further fields are not
/// read.
pub open spec fn room(line: Seq<u8>) -> Option<Room> {
    let f = fields(line, 0x20);
    if f.len() < 5 {
        None
    } else {
        match (pair(f[0]), pair(f[1]), number(f[2]), number(f[3]), number(f[4])) {
            (Some(p), Some(q), Some(guards), Some(points), Some(gold)) => Some(
                Room {
                    x1: p.0 as i32,
                    y1: p.1 as i32,
                    x2: q.0 as i32,
                    y2: q.1 as i32,
                    guards: guards as i32,
                    patrol_points: points as i32,
                    gold: gold as i32,
                },
            ),
            _ => None,
        }
    }
}

/// How many rows the grid of a level of height `height` has: one less than
/// the height, and none below that.
pub open spec fn grid_height(height: int) -> int {
    if height > 1 {
        height - 1
    } else {
        0
    }
}

/// What a level text holds.
pub struct LevelView {
    pub width: int,
    pub height: int,
    pub tiles: Seq<Seq<Tile>>,
    pub corners: Seq<Point>,
    pub walls: Seq<WallBox>,
    pub rooms: Seq<Room>,
}

/// What a level text holds, or why it is turned down. The header is read
/// first, then the rows of the grid, then the rooms, and the first fault
/// found decides.
pub open spec fn parse(text: Seq<u8>, size: Vector) -> Result<LevelView, LoadError> {
    let all = lines(text);
    if all.len() == 0 {
        Err(LoadError::MissingHeader)
    } else {
        match header(all[0]) {
            None => Err(LoadError::BadHeader),
            Some((width, height)) => {
                let n = grid_height(height);
                if all.len() - 1 < n {
                    Err(LoadError::MissingRow)
                } else {
                    let rows = all.subrange(1, 1 + n);
                    let rest = all.skip(1 + n);
                    if exists|i: int| 0 <= i < rest.len() && room(#[trigger] rest[i]) is None {
                        Err(LoadError::BadRoom)
                    } else {
                        Ok(
                            LevelView {
                                width,
                                height,
                                tiles: grid_tiles(rows, size),
                                corners: grid_corners(rows),
                                walls: grid_walls(rows, size),
                                rooms: rest.map_values(|l: Seq<u8>| room(l).unwrap()),
                            },
                        )
                    }
                }
            },
        }
    }
}

/// A level as loaded from its text.
#[derive(Debug)]
pub struct Level {
    pub width: i32,
    pub height: i32,
    pub tiles: Vec<Vec<Tile>>,
    pub corners: Vec<Point>,
    pub walls: Vec<WallBox>,
    pub rooms: Vec<Room>,
}

impl View for Level {
    type V = LevelView;

    open spec fn view(&self) -> LevelView {
        LevelView {
            width: self.width as int,
            height: self.height as int,
            tiles: self.tiles@.map_values(|r: Vec<Tile>| r@),
            corners: self.corners@,
            walls: self.walls@,
            rooms: self.rooms@,
        }
    }
}

impl Tile {
    /// A tile of the given kind in cell `tpos` of the grid.
    pub fn new(ttype: TileType, tpos: Point, tsize: Vector) -> (t: Tile)
        ensures
            t.tile_type == ttype,
            t.tile_pos == tpos,
            t.tile_size == tsize,
            match ttype {
                TileType::Floor(src, layer) => t.tile_src == src && t.tile_layer == layer,
                TileType::Wall(src, layer) => t.tile_src == src && t.tile_layer == layer,
            },
    {
        let (tsrc, tlayer) = match ttype {
            TileType::Floor(d, l) => (d, l),
            TileType::Wall(d, l) => (d, l),
        };
        Tile { tile_type: ttype, tile_src: tsrc, tile_layer: tlayer, tile_pos: tpos, tile_size: tsize }
    }

    /// Where the tile's top-left corner lies when the map starts at
    /// `map_start`.
    pub open spec fn place(self, map_start: Point) -> (int, int) {
        (
            map_start.x + self.tile_pos.x * self.tile_size.x,
            map_start.y + self.tile_pos.y * self.tile_size.y,
        )
    }

    /// Whether `place` can be represented.
    pub open spec fn can_place(self, map_start: Point) -> bool {
        &&& fits(self.tile_pos.x * self.tile_size.x)
        &&& fits(self.tile_pos.y * self.tile_size.y)
        &&& fits(self.place(map_start).0)
        &&& fits(self.place(map_start).1)
    }

    /// The tile's image, to be drawn where the tile lies when the map starts
    /// at `map_start`.
    pub fn drawparam(&self, map_start: Point) -> (s: Sprite)
        requires
            self.can_place(map_start),
        ensures
            s.src == self.tile_src,
            s.dest.x == self.place(map_start).0,
            s.dest.y == self.place(map_start).1,
    {
        Sprite {
            src: self.tile_src,
            dest: Point {
                x: map_start.x + self.tile_pos.x * self.tile_size.x,
                y: map_start.y + self.tile_pos.y * self.tile_size.y,
            },
        }
    }
}

/// Whether `t` is a tile of size `size` in a cell that a level text can
/// reach.
pub open spec fn tile_ok(t: Tile, size: Vector) -> bool {
    &&& 0 <= t.tile_pos.x <= MAX_TEXT
    &&& 0 <= t.tile_pos.y <= MAX_TEXT
    &&& t.tile_size == size
}

/// Whether `c` is a corner point that a level text can reach.
pub open spec fn corner_ok(c: Point) -> bool {
    &&& 0 <= c.x <= CORNER_PARTS * (MAX_TEXT + 1)
    &&& 0 <= c.y <= CORNER_PARTS * (MAX_TEXT + 1)
}

/// What a byte can stand for: a cell of the sheet, a layer, and a corner
/// point on the tile's rim.
pub proof fn lemma_glyph(c: u8)
    ensures
        glyph(c) matches Some(g) ==> {
            &&& 0 <= g.col <= 4
            &&& 0 <= g.row <= 2
            &&& (g.layer == BACK_LAYER || g.layer == FRONT_LAYER)
            &&& (g.corner matches Some(p) ==> 0 <= p.x <= CORNER_PARTS && 0 <= p.y <= CORNER_PARTS)
        },
{
}

/// The tiles and corner points of a row lie in that row, within its length.
pub proof fn lemma_row_ok(line: Seq<u8>, y: int, size: Vector)
    requires
        line.len() <= MAX_TEXT,
        0 <= y <= MAX_TEXT,
    ensures
        forall|i: int|
            0 <= i < row_tiles(line, y, size).len() ==> {
                let t = #[trigger] row_tiles(line, y, size)[i];
                0 <= t.tile_pos.x < line.len() && t.tile_pos.y == y && t.tile_size == size
            },
        forall|i: int|
            0 <= i < row_corners(line, y).len() ==> {
                let c = #[trigger] row_corners(line, y)[i];
                0 <= c.x <= CORNER_PARTS * line.len() && 0 <= c.y <= CORNER_PARTS * (y + 1)
            },
    decreases line.len(),
{
    if line.len() > 0 {
        lemma_row_ok(line.drop_last(), y, size);
        lemma_glyph(line.last());
        let before = row_tiles(line.drop_last(), y, size);
        assert forall|i: int| 0 <= i < row_tiles(line, y, size).len() implies {
            let t = #[trigger] row_tiles(line, y, size)[i];
            0 <= t.tile_pos.x < line.len() && t.tile_pos.y == y && t.tile_size == size
        } by {
            if i < before.len() {
                assert(row_tiles(line, y, size)[i] == before[i]);
            }
        }
        let earlier = row_corners(line.drop_last(), y);
        assert forall|i: int| 0 <= i < row_corners(line, y).len() implies {
            let c = #[trigger] row_corners(line, y)[i];
            0 <= c.x <= CORNER_PARTS * line.len() && 0 <= c.y <= CORNER_PARTS * (y + 1)
        } by {
            if i < earlier.len() {
                assert(row_corners(line, y)[i] == earlier[i]);
            }
        }
    }
}

/// The corner points of a grid lie within it.
pub proof fn lemma_grid_corners_ok(rows: Seq<Seq<u8>>)
    requires
        rows.len() <= MAX_TEXT,
        forall|i: int| 0 <= i < rows.len() ==> (#[trigger] rows[i]).len() <= MAX_TEXT,
    ensures
        forall|i: int|
            0 <= i < grid_corners(rows).len() ==> corner_ok(#[trigger] grid_corners(rows)[i]),
    decreases rows.len(),
{
    if rows.len() > 0 {
        let before = grid_corners(rows.drop_last());
        let last = row_corners(rows.last(), rows.len() - 1);
        lemma_grid_corners_ok(rows.drop_last());
        lemma_row_ok(rows.last(), rows.len() - 1, Vector { x: 0, y: 0 });
        assert forall|i: int| 0 <= i < grid_corners(rows).len() implies corner_ok(
            #[trigger] grid_corners(rows)[i],
        ) by {
            if i < before.len() {
                assert(grid_corners(rows)[i] == before[i]);
            } else {
                assert(grid_corners(rows)[i] == last[i - before.len()]);
            }
        }
    }
}

/// What a level text holds lies within the reach of a level text.
pub proof fn lemma_parse_ok(text: Seq<u8>, size: Vector)
    requires
        text.len() <= MAX_TEXT,
        parse(text, size) is Ok,
    ensures
        ({
            let level = parse(text, size)->Ok_0;
            &&& forall|r: int, c: int|
                0 <= r < level.tiles.len() && 0 <= c < level.tiles[r].len() ==> tile_ok(
                    #[trigger] level.tiles[r][c],
                    size,
                )
            &&& forall|i: int| 0 <= i < level.corners.len() ==> corner_ok(#[trigger] level.corners[i])
            &&& level.rooms.len() <= MAX_TEXT
        }),
{
    let all = lines(text);
    lemma_lines_bound(text);
    let (width, height) = header(all[0])->Some_0;
    let n = grid_height(height);
    let rows = all.subrange(1, 1 + n);
    let level = parse(text, size)->Ok_0;
    assert forall|r: int, c: int|
        0 <= r < level.tiles.len() && 0 <= c < level.tiles[r].len() implies tile_ok(
        #[trigger] level.tiles[r][c],
        size,
    ) by {
        assert(rows[r] == all[r + 1]);
        lemma_row_ok(rows[r], r, size);
    }
    assert forall|i: int| 0 <= i < rows.len() implies (#[trigger] rows[i]).len() <= MAX_TEXT by {
        assert(rows[i] == all[i + 1]);
    }
    lemma_grid_corners_ok(rows);
}

/// What the byte `c` of a grid stands for.
pub fn glyph_of(c: u8) -> (g: Option<Glyph>)
    ensures
        g == glyph(c),
{
    let wall = |col: i64, row: i64, layer: i32, corner: Option<Point>| -> (g: Option<Glyph>)
        ensures
            g == Some(wall_glyph(col, row, layer, corner)),
        { Some(Glyph { wall: true, col, row, layer, corner }) };
    match c {
        0x31 => wall(0, 0, 2, Some(Point { x: 12, y: 12 })),
        0x32 => wall(1, 0, 1, None),
        0x33 => wall(2, 0, 2, Some(Point { x: 20, y: 12 })),
        0x34 => wall(3, 0, 1, Some(Point { x: 32, y: 12 })),
        0x35 => wall(4, 0, 1, Some(Point { x: 0, y: 12 })),
        0x36 => wall(0, 1, 1, None),
        0x37 => wall(1, 1, 1, None),
        0x38 => wall(2, 1, 1, None),
        0x39 => wall(3, 1, 1, Some(Point { x: 32, y: 0 })),
        0x41 => wall(4, 1, 1, Some(Point { x: 0, y: 0 })),
        0x42 => wall(0, 2, 1, Some(Point { x: 12, y: 0 })),
        0x43 => wall(1, 2, 2, None),
        0x44 => wall(2, 2, 1, Some(Point { x: 20, y: 0 })),
        0x20 => Some(Glyph { wall: false, col: 3, row: 2, layer: 1, corner: None }),
        _ => None,
    }
}

/// Lays out row `y` of the grid: returns its tiles, and appends its corner
/// points and the boxes of its walls.
fn lay_row(
    line: &Vec<u8>,
    y: usize,
    size: Vector,
    corners: &mut Vec<Point>,
    walls: &mut Vec<WallBox>,
) -> (row: Vec<Tile>)
    requires
        line.len() <= MAX_TEXT,
        y <= MAX_TEXT,
        tile_size_ok(size),
    ensures
        row@ == row_tiles(line@, y as int, size),
        final(corners)@ == old(corners)@ + row_corners(line@, y as int),
        final(walls)@ == old(walls)@ + row_walls(line@, y as int, size),
{
    let mut row: Vec<Tile> = Vec::new();
    let mut x: usize = 0;
    proof {
        assert(line@.take(0) =~= Seq::<u8>::empty());
        assert(old(corners)@ + Seq::<Point>::empty() =~= old(corners)@);
        assert(old(walls)@ + Seq::<WallBox>::empty() =~= old(walls)@);
    }
    while x < line.len()
        invariant
            x <= line.len() <= MAX_TEXT,
            y <= MAX_TEXT,
            tile_size_ok(size),
            row@ == row_tiles(line@.take(x as int), y as int, size),
            corners@ == old(corners)@ + row_corners(line@.take(x as int), y as int),
            walls@ == old(walls)@ + row_walls(line@.take(x as int), y as int, size),
        decreases line.len() - x,
    {
        let ghost done = line@.take(x as int);
        let ghost next = line@.take(x + 1);
        proof {
            assert(next.drop_last() =~= done);
            assert(next.last() == line@[x as int]);
        }
        match glyph_of(line[x]) {
            Some(g) => {
                let col = x as i64;
                let ry = y as i64;
                assert(0 <= g.col <= 4 && 0 <= g.row <= 2);
                assert(0 <= g.col * size.x <= 4 * MAX_TILE && 0 <= g.row * size.y <= 2 * MAX_TILE
                    && 0 <= col * size.x <= MAX_TEXT * MAX_TILE && 0 <= ry * size.y <= MAX_TEXT
                    * MAX_TILE) by (nonlinear_arith)
                    requires
                        0 <= g.col <= 4,
                        0 <= g.row <= 2,
                        0 <= col <= MAX_TEXT,
                        0 <= ry <= MAX_TEXT,
                        0 <= size.x <= MAX_TILE,
                        0 <= size.y <= MAX_TILE,
                ;
                let src = Rect { x: g.col * size.x, y: g.row * size.y, w: size.x, h: size.y };
                let ttype = if g.wall {
                    TileType::Wall(src, g.layer)
                } else {
                    TileType::Floor(src, g.layer)
                };
                if let Some(inset) = g.corner {
                    assert(0 <= inset.x <= 32 && 0 <= inset.y <= 32);
                    let ghost before = corners@;
                    corners.push(
                        Point { x: CORNER_PARTS * col + inset.x, y: CORNER_PARTS * ry + inset.y },
                    );
                    proof {
                        assert(corners@ =~= old(corners)@ + row_corners(next, y as int));
                    }
                } else {
                    proof {
                        assert(row_corners(next, y as int) == row_corners(done, y as int));
                    }
                }
                row.push(Tile::new(ttype, Point { x: col, y: ry }, size));
                if g.wall {
                    let wall = if g.layer != FRONT_LAYER {
                        WallBox {
                            center: Point { x: col * size.x, y: ry * size.y },
                            half: Vector { x: WALL_HALF, y: WALL_HALF },
                        }
                    } else {
                        WallBox {
                            center: Point { x: col * size.x, y: ry * size.y + WALL_HALF },
                            half: Vector { x: WALL_HALF, y: THIN_HALF },
                        }
                    };
                    walls.push(wall);
                    proof {
                        assert(walls@ =~= old(walls)@ + row_walls(next, y as int, size));
                    }
                } else {
                    proof {
                        assert(row_walls(next, y as int, size) == row_walls(done, y as int, size));
                    }
                }
            },
            None => {
                proof {
                    assert(row_tiles(next, y as int, size) == row_tiles(done, y as int, size));
                    assert(row_corners(next, y as int) == row_corners(done, y as int));
                    assert(row_walls(next, y as int, size) == row_walls(done, y as int, size));
                }
            },
        }
        x += 1;
    }
    proof {
        assert(line@.take(x as int) =~= line@);
    }
    row
}

/// Width and height as the header line gives them.
fn parse_header(line: &Vec<u8>) -> (r: Option<(i32, i32)>)
    ensures
        match r {
            Some((w, h)) => header(line@) == Some((w as int, h as int)),
            None => header(line@) is None,
        },
{
    let f = split(line.as_slice(), 0x20);
    if f.len() < 2 {
        return None;
    }
    assert(views(f@)[0] == f@[0]@ && views(f@)[1] == f@[1]@);
    match (parse_number(f[0].as_slice()), parse_number(f[1].as_slice())) {
        (Some(w), Some(h)) => Some((w, h)),
        _ => None,
    }
}

/// The two numbers of a corner.
fn parse_pair(field: &Vec<u8>) -> (r: Option<(i32, i32)>)
    ensures
        match r {
            Some((a, b)) => pair(field@) == Some((a as int, b as int)),
            None => pair(field@) is None,
        },
{
    let f = split(field.as_slice(), 0x2c);
    if f.len() < 2 {
        return None;
    }
    assert(views(f@)[0] == f@[0]@ && views(f@)[1] == f@[1]@);
    match (parse_number(f[0].as_slice()), parse_number(f[1].as_slice())) {
        (Some(a), Some(b)) => Some((a, b)),
        _ => None,
    }
}

/// The room that a room line describes.
fn parse_room(line: &Vec<u8>) -> (r: Option<Room>)
    ensures
        r == room(line@),
{
    let f = split(line.as_slice(), 0x20);
    if f.len() < 5 {
        return None;
    }
    assert(views(f@)[0] == f@[0]@ && views(f@)[1] == f@[1]@ && views(f@)[2] == f@[2]@ && views(
        f@,
    )[3] == f@[3]@ && views(f@)[4] == f@[4]@);
    let p = parse_pair(&f[0]);
    let q = parse_pair(&f[1]);
    let guards = parse_number(f[2].as_slice());
    let points = parse_number(f[3].as_slice());
    let gold = parse_number(f[4].as_slice());
    match (p, q, guards, points, gold) {
        (Some(p), Some(q), Some(guards), Some(points), Some(gold)) => Some(
            Room { x1: p.0, y1: p.1, x2: q.0, y2: q.1, guards, patrol_points: points, gold },
        ),
        _ => None,
    }
}

/// Reads a level text, for tiles of size `size`.
pub fn parse_level(text: &[u8], size: Vector) -> (r: Result<Level, LoadError>)
    requires
        text@.len() <= MAX_TEXT,
        tile_size_ok(size),
    ensures
        match r {
            Ok(level) => parse(text@, size) == Ok::<LevelView, LoadError>(level@),
            Err(e) => parse(text@, size) == Err::<LevelView, LoadError>(e),
        },
{
    let all = split_lines(text);
    let ghost ls = lines(text@);
    proof {
        lemma_lines_bound(text@);
        assert forall|i: int| 0 <= i < all@.len() implies (#[trigger] all@[i])@ == ls[i] by {
            assert(views(all@)[i] == all@[i]@);
        }
    }
    if all.len() == 0 {
        return Err(LoadError::MissingHeader);
    }
    let (width, height) = match parse_header(&all[0]) {
        Some(d) => d,
        None => {
            return Err(LoadError::BadHeader);
        },
    };
    let n: usize = if height > 1 { (height - 1) as usize } else { 0 };
    if all.len() - 1 < n {
        return Err(LoadError::MissingRow);
    }
    let ghost rows = ls.subrange(1, 1 + n);
    let ghost rest = ls.skip(1 + n);
    let mut tiles: Vec<Vec<Tile>> = Vec::new();
    let mut corners: Vec<Point> = Vec::new();
    let mut walls: Vec<WallBox> = Vec::new();
    let mut y: usize = 0;
    proof {
        assert(rows.take(0) =~= Seq::<Seq<u8>>::empty());
    }
    while y < n
        invariant
            y <= n < all.len() <= MAX_TEXT,
            tile_size_ok(size),
            ls.len() == all.len(),
            rows == ls.subrange(1, 1 + n),
            forall|i: int| 0 <= i < all@.len() ==> (#[trigger] all@[i])@ == ls[i],
            forall|i: int| 0 <= i < ls.len() ==> (#[trigger] ls[i]).len() <= MAX_TEXT,
            tiles@.len() == y,
            forall|j: int| 0 <= j < y ==> (#[trigger] tiles@[j])@ == row_tiles(rows[j], j, size),
            corners@ == grid_corners(rows.take(y as int)),
            walls@ == grid_walls(rows.take(y as int), size),
        decreases n - y,
    {
        proof {
            assert(rows.take(y + 1).drop_last() =~= rows.take(y as int));
            assert(rows.take(y + 1).last() == rows[y as int]);
            assert(rows[y as int] == ls[y + 1]);
            assert(all@[y + 1]@ == ls[y + 1]);
        }
        let row = lay_row(&all[y + 1], y, size, &mut corners, &mut walls);
        tiles.push(row);
        y += 1;
    }
    let mut rooms: Vec<Room> = Vec::new();
    let mut i: usize = 1 + n;
    while i < all.len()
        invariant
            1 + n <= i <= all.len(),
            ls == lines(text@),
            ls.len() == all.len(),
            header(ls[0]) == Some((width as int, height as int)),
            n == grid_height(height as int),
            rest == ls.skip(1 + n),
            forall|k: int| 0 <= k < all@.len() ==> (#[trigger] all@[k])@ == ls[k],
            rooms@.len() == i - (1 + n),
            forall|k: int| 0 <= k < rooms@.len() ==> room(#[trigger] rest[k]) == Some(rooms@[k]),
        decreases all.len() - i,
    {
        proof {
            assert(rest[i - (1 + n)] == ls[i as int]);
            assert(all@[i as int]@ == ls[i as int]);
        }
        match parse_room(&all[i]) {
            Some(r) => {
                rooms.push(r);
            },
            None => {
                assert(room(rest[i - (1 + n)]) is None);
                return Err(LoadError::BadRoom);
            },
        }
        i += 1;
    }
    let level = Level { width, height, tiles, corners, walls, rooms };
    proof {
        assert(rows.take(n as int) =~= rows);
        assert(level@.tiles =~= grid_tiles(rows, size));
        assert(level@.rooms =~= rest.map_values(|l: Seq<u8>| room(l).unwrap()));
    }
    Ok(level)
}

} // verus!
