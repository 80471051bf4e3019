use vstd::prelude::*;

use crate::rng::rand_in;
use crate::HITBOX_MARGIN_FP;
use crate::TILE_FP;

verus! {

/// Denominator of the wall probability: one uniform draw from
/// `[0, PROB_DEN)` decides each interior cell.
pub const PROB_DEN: u32 = 1000000;

/// Numerator of the wall probability: an interior cell becomes a wall
/// when its draw is below this, so with probability 0.2.
pub const WALL_PROB_NUM: u32 = 200000;

/// How many random draws the spawn search makes before it falls back to a
/// deterministic scan of the grid.
pub const SPAWN_RETRIES: usize = 10000;

#[derive(Clone, Copy, PartialEq, Eq, Structural, Debug)]
pub enum Tile {
    Floor,
    Wall,
}

/// A rectangular grid of tiles, `height` rows of `width` columns.
pub struct TileMap {
    pub width: usize,
    pub height: usize,
    pub tiles: Vec<Vec<Tile>>,
}

impl TileMap {
    pub open spec fn wf(self) -> bool {
        &&& 2 <= self.width <= 4096
        &&& 2 <= self.height <= 4096
        &&& self.tiles@.len() == self.height
        &&& forall|y: int|
            0 <= y < self.height ==> (#[trigger] self.tiles@[y])@.len() == self.width
    }

    pub open spec fn tile_at(self, y: int, x: int) -> Tile {
        self.tiles@[y]@[x]
    }

    pub open spec fn is_border(self, y: int, x: int) -> bool {
        y == 0 || y == self.height - 1 || x == 0 || x == self.width - 1
    }

    pub open spec fn has_floor(self) -> bool {
        exists|y: int, x: int|
            0 <= y < self.height && 0 <= x < self.width && self.tile_at(y, x) == Tile::Floor
    }

    pub fn at(&self, y: usize, x: usize) -> (t: Tile)
        requires
            self.wf(),
            y < self.height,
            x < self.width,
        ensures
            t == self.tile_at(y as int, x as int),
    {
        self.tiles[y][x]
    }
}

/// Builds a fresh map: every border cell is a wall, and each interior cell
/// is independently a wall with probability `WALL_PROB_NUM / PROB_DEN`.
pub fn generate_map(width: usize, height: usize) -> (m: TileMap)
    requires
        2 <= width <= 4096,
        2 <= height <= 4096,
    ensures
        m.wf(),
        m.width == width,
        m.height == height,
        forall|y: int, x: int|
            0 <= y < height && 0 <= x < width && m.is_border(y, x) ==> m.tile_at(y, x)
                == Tile::Wall,
{
    let mut tiles: Vec<Vec<Tile>> = Vec::new();
    let mut y: usize = 0;
    while y < height
        invariant
            y <= height,
            2 <= width <= 4096,
            2 <= height <= 4096,
            tiles@.len() == y,
            forall|yy: int| 0 <= yy < y ==> (#[trigger] tiles@[yy])@.len() == width,
            forall|yy: int, xx: int|
                0 <= yy < y && 0 <= xx < width && (yy == 0 || yy == height - 1 || xx == 0 || xx
                    == width - 1) ==> (#[trigger] tiles@[yy]@[xx]) == Tile::Wall,
        decreases height - y,
    {
        let mut row: Vec<Tile> = Vec::new();
        let mut x: usize = 0;
        while x < width
            invariant
                x <= width,
                2 <= width <= 4096,
                2 <= height <= 4096,
                y < height,
                row@.len() == x,
                forall|xx: int|
                    0 <= xx < x && (y == 0 || y == height - 1 || xx == 0 || xx == width - 1) ==> (
                    #[trigger] row@[xx]) == Tile::Wall,
            decreases width - x,
        {
            let t: Tile = if x == 0 || x == width - 1 || y == 0 || y == height - 1 {
                Tile::Wall
            } else if rand_in(0, PROB_DEN) < WALL_PROB_NUM {
                Tile::Wall
            } else {
                Tile::Floor
            };
            row.push(t);
            x = x + 1;
        }
        tiles.push(row);
        y = y + 1;
    }
    TileMap { width, height, tiles }
}

/// Grid cell that contains a point: flooring division of each subpixel
/// coordinate by the tile size.
pub fn get_map_position(x: i64, y: i64) -> (r: (usize, usize))
    requires
        0 <= x < 0x100000000,
        0 <= y < 0x100000000,
    ensures
        r.0 == x as int / TILE_FP as int,
        r.1 == y as int / TILE_FP as int,
{
    proof {
        vstd::arithmetic::div_mod::lemma_div_pos_is_pos(x as int, TILE_FP as int);
        vstd::arithmetic::div_mod::lemma_div_pos_is_pos(y as int, TILE_FP as int);
        vstd::arithmetic::div_mod::lemma_div_nonincreasing(x as int, TILE_FP as int);
        vstd::arithmetic::div_mod::lemma_div_nonincreasing(y as int, TILE_FP as int);
    }
    ((x / TILE_FP) as usize, (y / TILE_FP) as usize)
}

/// The cell that contains the point `(px, py)` is a wall.
pub open spec fn wall_at_point(m: TileMap, px: int, py: int) -> bool {
    m.tile_at(py / (TILE_FP as int), px / (TILE_FP as int)) == Tile::Wall
}

/// A tile-sized box at `(x, y)`, inset by the hitbox margin, overlaps a
/// wall: one of its four corner points lies in a wall cell.
pub open spec fn collides_spec(m: TileMap, x: int, y: int) -> bool {
    let t = TILE_FP as int;
    let h = HITBOX_MARGIN_FP as int;
    ||| wall_at_point(m, x + h, y + h)
    ||| wall_at_point(m, x + t - h, y + h)
    ||| wall_at_point(m, x + h, y + t - h)
    ||| wall_at_point(m, x + t - h, y + t - h)
}

/// The four corner points of the inset box at `(x, y)` all lie inside the
/// map's pixel extent, so a collision query at `(x, y)` is well defined.
pub open spec fn query_in_extent(m: TileMap, x: int, y: int) -> bool {
    &&& x + HITBOX_MARGIN_FP >= 0
    &&& y + HITBOX_MARGIN_FP >= 0
    &&& x + TILE_FP - HITBOX_MARGIN_FP < m.width * TILE_FP
    &&& y + TILE_FP - HITBOX_MARGIN_FP < m.height * TILE_FP
}

/// Wall cells of row `y` among the first `x` columns, as `(column, row)`
/// pairs in column order.
pub open spec fn wall_cells_row(m: TileMap, y: int, x: int) -> Seq<(int, int)>
    decreases x,
{
    if x <= 0 {
        Seq::<(int, int)>::empty()
    } else {
        wall_cells_row(m, y, x - 1) + (if m.tile_at(y, x - 1) == Tile::Wall {
            seq![(x - 1, y)]
        } else {
            Seq::<(int, int)>::empty()
        })
    }
}

/// Wall cells of the first `y` rows, in row-major order.
pub open spec fn wall_cells_rows(m: TileMap, y: int) -> Seq<(int, int)>
    decreases y,
{
    if y <= 0 {
        Seq::<(int, int)>::empty()
    } else {
        wall_cells_rows(m, y - 1) + wall_cells_row(m, y - 1, m.width as int)
    }
}

/// All wall cells of the map, as `(column, row)` pairs in row-major order.
pub open spec fn wall_cells(m: TileMap) -> Seq<(int, int)> {
    wall_cells_rows(m, m.height as int)
}

proof fn lemma_wall_cells_row_complete(m: TileMap, y: int, x: int, cx: int)
    requires
        0 <= cx,
    ensures
        wall_cells_row(m, y, x).contains((cx, y)) <==> (cx < x && m.tile_at(y, cx) == Tile::Wall),
    decreases x,
{
    let s = wall_cells_row(m, y, x);
    if x <= 0 {
        assert(!s.contains((cx, y)));
    } else {
        lemma_wall_cells_row_complete(m, y, x - 1, cx);
        let sp = wall_cells_row(m, y, x - 1);
        if s.contains((cx, y)) {
            let i = choose|i: int| 0 <= i < s.len() && s[i] == (cx, y);
            if i < sp.len() {
                assert(sp[i] == (cx, y));
                assert(sp.contains((cx, y)));
            } else {
                assert(s[i] == (x - 1, y));
            }
        }
        if cx < x && m.tile_at(y, cx) == Tile::Wall {
            if cx < x - 1 {
                let i = choose|i: int| 0 <= i < sp.len() && sp[i] == (cx, y);
                assert(s[i] == (cx, y));
            } else {
                assert(s[sp.len() as int] == (cx, y));
            }
        }
    }
}

/// `wall_cells` lists exactly the wall cells of the map: the scene that
/// `prepare` builds therefore holds one wall tile per wall cell and no
/// others.
pub proof fn lemma_wall_cells_complete(m: TileMap, cx: int, cy: int)
    requires
        0 <= cx,
        0 <= cy,
    ensures
        wall_cells(m).contains((cx, cy)) <==> (cx < m.width && cy < m.height && m.tile_at(cy, cx)
            == Tile::Wall),
{
    lemma_wall_cells_rows_complete(m, m.height as int, cx, cy);
}

proof fn lemma_wall_cells_rows_complete(m: TileMap, y: int, cx: int, cy: int)
    requires
        0 <= cx,
        0 <= cy,
    ensures
        wall_cells_rows(m, y).contains((cx, cy)) <==> (cx < m.width && cy < y && m.tile_at(cy, cx)
            == Tile::Wall),
    decreases y,
{
    let s = wall_cells_rows(m, y);
    if y <= 0 {
        assert(!s.contains((cx, cy)));
    } else {
        lemma_wall_cells_rows_complete(m, y - 1, cx, cy);
        lemma_wall_cells_row_complete(m, y - 1, m.width as int, cx);
        lemma_wall_cells_row_in_row(m, y - 1, m.width as int);
        let sp = wall_cells_rows(m, y - 1);
        let row = wall_cells_row(m, y - 1, m.width as int);
        if s.contains((cx, cy)) {
            let i = choose|i: int| 0 <= i < s.len() && s[i] == (cx, cy);
            if i < sp.len() {
                assert(sp[i] == (cx, cy));
                assert(sp.contains((cx, cy)));
            } else {
                assert(row[i - sp.len()] == (cx, cy));
                assert(cy == y - 1);
                assert(row.contains((cx, cy)));
            }
        }
        if cx < m.width && cy < y && m.tile_at(cy, cx) == Tile::Wall {
            if cy < y - 1 {
                let i = choose|i: int| 0 <= i < sp.len() && sp[i] == (cx, cy);
                assert(s[i] == (cx, cy));
            } else {
                assert(row.contains((cx, cy)));
                let i = choose|i: int| 0 <= i < row.len() && row[i] == (cx, cy);
                assert(s[sp.len() + i] == (cx, cy));
            }
        }
    }
}

/// Every cell that a row's wall list names lies in that row.
proof fn lemma_wall_cells_row_in_row(m: TileMap, y: int, x: int)
    ensures
        forall|j: int|
            0 <= j < wall_cells_row(m, y, x).len() ==> (#[trigger] wall_cells_row(m, y, x)[j]).1
                == y,
    decreases x,
{
    if x > 0 {
        lemma_wall_cells_row_in_row(m, y, x - 1);
        let s = wall_cells_row(m, y, x);
        let sp = wall_cells_row(m, y, x - 1);
        assert forall|j: int| 0 <= j < s.len() implies (#[trigger] s[j]).1 == y by {
            if j < sp.len() {
                assert(s[j] == sp[j]);
            } else {
                assert(s[j] == (x - 1, y));
            }
        }
    }
}

proof fn lemma_cell_in_range(a: int, w: int, t: int)
    requires
        0 <= a,
        a < w * t,
        0 < t,
        0 < w,
    ensures
        0 <= a / t < w,
{
    vstd::arithmetic::div_mod::lemma_div_pos_is_pos(a, t);
    vstd::arithmetic::div_mod::lemma_div_by_multiple(w, t);
    vstd::arithmetic::div_mod::lemma_div_by_multiple_is_strongly_ordered(a, w * t, w, t);
}

impl TileMap {
    /// Would a tile-sized box placed at `(x, y)`, inset by the hitbox
    /// margin, overlap any wall cell?
    pub fn collides_with_a_wall(&self, x: i64, y: i64) -> (r: bool)
        requires
            self.wf(),
            query_in_extent(*self, x as int, y as int),
        ensures
            r == collides_spec(*self, x as int, y as int),
    {
        proof {
            let t = TILE_FP as int;
            let h = HITBOX_MARGIN_FP as int;
            let w = self.width as int;
            let hh = self.height as int;
            lemma_cell_in_range(x + h, w, t);
            lemma_cell_in_range(x + t - h, w, t);
            lemma_cell_in_range(y + h, hh, t);
            lemma_cell_in_range(y + t - h, hh, t);
        }
        let left = x + HITBOX_MARGIN_FP;
        let right = x + TILE_FP - HITBOX_MARGIN_FP;
        let top = y + HITBOX_MARGIN_FP;
        let bottom = y + TILE_FP - HITBOX_MARGIN_FP;
        let c0 = get_map_position(left, top);
        let c1 = get_map_position(right, top);
        let c2 = get_map_position(left, bottom);
        let c3 = get_map_position(right, bottom);
        let r0 = self.at(c0.1, c0.0);
        let r1 = self.at(c1.1, c1.0);
        let r2 = self.at(c2.1, c2.0);
        let r3 = self.at(c3.1, c3.0);
        r0 == Tile::Wall || r1 == Tile::Wall || r2 == Tile::Wall || r3 == Tile::Wall
    }

    /// Does any floor cell exist? A spawn position can be found exactly
    /// when one does.
    pub fn has_floor_cell(&self) -> (r: bool)
        requires
            self.wf(),
        ensures
            r == self.has_floor(),
    {
        let mut y: usize = 0;
        while y < self.height
            invariant
                self.wf(),
                y <= self.height,
                forall|yy: int, xx: int|
                    0 <= yy < y && 0 <= xx < self.width ==> #[trigger] self.tile_at(yy, xx)
                        != Tile::Floor,
            decreases self.height - y,
        {
            let mut x: usize = 0;
            while x < self.width
                invariant
                    self.wf(),
                    y < self.height,
                    x <= self.width,
                    forall|xx: int|
                        0 <= xx < x ==> #[trigger] self.tile_at(y as int, xx) != Tile::Floor,
                decreases self.width - x,
            {
                if self.at(y, x) == Tile::Floor {
                    return true;
                }
                x = x + 1;
            }
            y = y + 1;
        }
        false
    }

    /// Picks a floor cell for the character: random draws first (rejection
    /// sampling, as many as `SPAWN_RETRIES`), then a deterministic scan so
    /// that the search provably terminates. Returns `(column, row)`.
    pub fn spawn_cell(&self) -> (r: Option<(usize, usize)>)
        requires
            self.wf(),
        ensures
            r is Some <==> self.has_floor(),
            r matches Some(c) ==> c.0 < self.width && c.1 < self.height && self.tile_at(
                c.1 as int,
                c.0 as int,
            ) == Tile::Floor,
    {
        let mut k: usize = 0;
        while k < SPAWN_RETRIES
            invariant
                self.wf(),
            decreases SPAWN_RETRIES - k,
        {
            let x = rand_in(0, self.width as u32) as usize;
            let y = rand_in(0, self.height as u32) as usize;
            if self.at(y, x) == Tile::Floor {
                return Some((x, y));
            }
            k = k + 1;
        }
        let mut y: usize = 0;
        while y < self.height
            invariant
                self.wf(),
                y <= self.height,
                forall|yy: int, xx: int|
                    0 <= yy < y && 0 <= xx < self.width ==> #[trigger] self.tile_at(yy, xx)
                        != Tile::Floor,
            decreases self.height - y,
        {
            let mut x: usize = 0;
            while x < self.width
                invariant
                    self.wf(),
                    y < self.height,
                    x <= self.width,
                    forall|xx: int|
                        0 <= xx < x ==> #[trigger] self.tile_at(y as int, xx) != Tile::Floor,
                decreases self.width - x,
            {
                if self.at(y, x) == Tile::Floor {
                    return Some((x, y));
                }
                x = x + 1;
            }
            y = y + 1;
        }
        None
    }
}

} // verus!
