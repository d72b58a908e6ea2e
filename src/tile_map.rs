//! The tile grid of a level: bounds-safe lookup and row-major search.
use vstd::prelude::*;
use crate::geometry::{Direction, Pos};

verus! {

/// Largest number of rows, and of columns, that a grid may have.
pub const MAX_SIDE: usize = 1024;

/// What occupies one cell of the grid.
#[derive(Clone, Copy, Debug, PartialEq, Eq, Structural)]
pub enum Tile {
    /// Impassable; ends a slide.
    Wall,
    /// Passable; sends the traveller to the other cell with the same index.
    Teleporter(u32),
    /// Passable, no effect.
    Empty,
    /// Passable; where the traveller appears when the level begins.
    Start,
    /// Passable only when travelling in the given direction.
    OneWay(Direction),
    /// Passable; ends a slide and completes the level.
    Target,
}

/// Why a list of rows is not a grid.
#[derive(Clone, Copy, Debug, PartialEq, Eq, Structural)]
pub enum GridError {
    /// There are no rows, or the first row has no cells.
    Empty,
    /// Some row differs in length from the first.
    Ragged,
    /// More than `MAX_SIDE` rows, or more than `MAX_SIDE` columns.
    TooLarge,
}

/// A rectangular grid of tiles, stored row by row.
#[derive(Clone, Debug)]
pub struct TileMap {
    tiles: Vec<Vec<Tile>>,
}

/// What `TileMap::find_tile` looks for.
#[derive(Clone, Copy, Debug, PartialEq, Eq, Structural)]
pub enum TileQuery {
    /// The `Start` tile.
    Start,
    /// A teleporter with this index on any cell but `except`.
    Partner { index: u32, except: Pos },
}

/// The tile at column `x`, row `y`; every cell outside the grid is a wall.
pub open spec fn tile_of(g: Seq<Seq<Tile>>, x: int, y: int) -> Tile {
    if 0 <= y < g.len() && 0 <= x < g[y].len() {
        g[y][x]
    } else {
        Tile::Wall
    }
}

/// Whether column `x`, row `y` lies inside the grid.
pub open spec fn in_grid(g: Seq<Seq<Tile>>, x: int, y: int) -> bool {
    0 <= y < g.len() && 0 <= x < g[y].len()
}

/// Whether rows have the shape of a grid: at least one row, all of one
/// length, at least one and at most `MAX_SIDE` rows and columns.
pub open spec fn is_grid(g: Seq<Seq<Tile>>) -> bool {
    &&& 1 <= g.len() <= MAX_SIDE
    &&& 1 <= g[0].len() <= MAX_SIDE
    &&& forall|y: int| 0 <= y < g.len() ==> #[trigger] g[y].len() == g[0].len()
}

/// Whether cell (`x`, `y`) holding `t` is what `q` looks for.
pub open spec fn query_matches(q: TileQuery, t: Tile, x: int, y: int) -> bool {
    match q {
        TileQuery::Start => t == Tile::Start,
        TileQuery::Partner { index, except } => t == Tile::Teleporter(index) && !(x == except.x
            && y == except.y),
    }
}

/// Whether cell `a` comes before cell `b` in row-major order.
pub open spec fn row_major_before(a: (int, int), b: (int, int)) -> bool {
    a.1 < b.1 || (a.1 == b.1 && a.0 < b.0)
}

/// Whether `c` is the first cell of the grid, in row-major order, that `q`
/// looks for.
pub open spec fn is_first_match(g: Seq<Seq<Tile>>, q: TileQuery, c: (int, int)) -> bool {
    &&& in_grid(g, c.0, c.1)
    &&& query_matches(q, g[c.1][c.0], c.0, c.1)
    &&& forall|x: int, y: int|
        in_grid(g, x, y) && row_major_before((x, y), c) ==> !query_matches(q, #[trigger] g[y][x], x, y)
}

/// The first cell of the grid, in row-major order, that `q` looks for.
pub open spec fn first_match(g: Seq<Seq<Tile>>, q: TileQuery) -> Option<(int, int)> {
    if exists|c: (int, int)| is_first_match(g, q, c) {
        Some(choose|c: (int, int)| is_first_match(g, q, c))
    } else {
        None
    }
}

/// There is at most one first match.
pub proof fn lemma_first_match_unique(g: Seq<Seq<Tile>>, q: TileQuery, a: (int, int), b: (int, int))
    requires
        is_first_match(g, q, a),
        is_first_match(g, q, b),
    ensures
        a == b,
{
    if row_major_before(a, b) {
        assert(!query_matches(q, g[a.1][a.0], a.0, a.1));
    } else if row_major_before(b, a) {
        assert(!query_matches(q, g[b.1][b.0], b.0, b.1));
    }
}

/// A grid in which some cell matches `q` has a first match.
pub proof fn lemma_first_match_exists(g: Seq<Seq<Tile>>, q: TileQuery, c: (int, int))
    requires
        in_grid(g, c.0, c.1),
        query_matches(q, g[c.1][c.0], c.0, c.1),
    ensures
        first_match(g, q) is Some,
    decreases c.1, c.0,
{
    if exists|x: int, y: int|
        in_grid(g, x, y) && row_major_before((x, y), c) && query_matches(q, #[trigger] g[y][x], x, y) {
        let (x, y) = choose|x: int, y: int|
            in_grid(g, x, y) && row_major_before((x, y), c) && query_matches(
                q,
                #[trigger] g[y][x],
                x,
                y,
            );
        lemma_first_match_exists(g, q, (x, y));
    } else {
        assert(is_first_match(g, q, c));
    }
}

impl View for TileMap {
    type V = Seq<Seq<Tile>>;

    closed spec fn view(&self) -> Seq<Seq<Tile>> {
        self.tiles@.map_values(|r: Vec<Tile>| r@)
    }
}

impl TileMap {
    /// The grid invariant: a non-empty rectangle no larger than
    /// `MAX_SIDE` by `MAX_SIDE`.
    pub open spec fn wf(&self) -> bool {
        is_grid(self@)
    }

    /// Number of rows.
    pub open spec fn spec_height(&self) -> int {
        self@.len() as int
    }

    /// Number of columns.
    pub open spec fn spec_width(&self) -> int {
        self@[0].len() as int
    }

    /// Builds a grid from its rows, top row first.
    pub fn from_rows(rows: Vec<Vec<Tile>>) -> (r: Result<TileMap, GridError>)
        ensures
            match r {
                Ok(m) => m@ == rows@.map_values(|row: Vec<Tile>| row@) && m.wf(),
                Err(GridError::Empty) => rows@.len() == 0 || rows@[0]@.len() == 0,
                Err(GridError::Ragged) => {
                    &&& rows@.len() > 0
                    &&& rows@[0]@.len() > 0
                    &&& exists|y: int| 0 <= y < rows@.len() && #[trigger] rows@[y]@.len() != rows@[0]@.len()
                },
                Err(GridError::TooLarge) => {
                    &&& rows@.len() > 0
                    &&& rows@[0]@.len() > 0
                    &&& forall|y: int| 0 <= y < rows@.len() ==> #[trigger] rows@[y]@.len() == rows@[0]@.len()
                    &&& (rows@.len() > MAX_SIDE || rows@[0]@.len() > MAX_SIDE)
                },
            },
    {
        if rows.len() == 0 || rows[0].len() == 0 {
            return Err(GridError::Empty);
        }
        let width = rows[0].len();
        let mut y: usize = 0;
        while y < rows.len()
            invariant
                0 <= y <= rows@.len(),
                width == rows@[0]@.len(),
                width > 0,
                forall|j: int| 0 <= j < y ==> #[trigger] rows@[j]@.len() == width,
            decreases rows@.len() - y,
        {
            if rows[y].len() != width {
                assert(rows@[y as int]@.len() != rows@[0]@.len());
                return Err(GridError::Ragged);
            }
            y = y + 1;
        }
        if rows.len() > MAX_SIDE || width > MAX_SIDE {
            return Err(GridError::TooLarge);
        }
        let m = TileMap { tiles: rows };
        assert forall|j: int| 0 <= j < m@.len() implies #[trigger] m@[j].len() == m@[0].len() by {
            assert(rows@[j]@.len() == width);
        }
        Ok(m)
    }

    /// Number of rows.
    pub fn height(&self) -> (r: usize)
        requires
            self.wf(),
        ensures
            r == self.spec_height(),
    {
        self.tiles.len()
    }

    /// Number of columns.
    pub fn width(&self) -> (r: usize)
        requires
            self.wf(),
        ensures
            r == self.spec_width(),
    {
        self.tiles[0].len()
    }

    /// The tile at column `x`, row `y`; a wall outside the grid.
    pub fn tile_at(&self, x: i64, y: i64) -> (r: Tile)
        ensures
            r == tile_of(self@, x as int, y as int),
    {
        if y < 0 || x < 0 {
            return Tile::Wall;
        }
        let yu = y as u64;
        let xu = x as u64;
        if yu >= self.tiles.len() as u64 {
            return Tile::Wall;
        }
        let row = &self.tiles[yu as usize];
        if xu >= row.len() as u64 {
            return Tile::Wall;
        }
        row[xu as usize]
    }

    /// The tile at `pos`; a wall outside the grid.
    pub fn get_tile_at(&self, pos: Pos) -> (r: Tile)
        ensures
            r == tile_of(self@, pos.x as int, pos.y as int),
    {
        self.tile_at(pos.x as i64, pos.y as i64)
    }

    /// The first cell, scanning row by row from the top left, that `q`
    /// looks for.
    pub fn find_tile(&self, q: &TileQuery) -> (r: Option<Pos>)
        requires
            self.wf(),
        ensures
            match first_match(self@, *q) {
                Some(c) => r == Some(Pos { x: c.0 as i32, y: c.1 as i32 }),
                None => r is None,
            },
            r matches Some(p) ==> in_grid(self@, p.x as int, p.y as int),
    {
        let ghost g = self@;
        let h = self.tiles.len();
        let w = self.tiles[0].len();
        let mut y: usize = 0;
        while y < h
            invariant
                g == self@,
                is_grid(g),
                h == g.len(),
                w == g[0].len(),
                0 <= y <= h,
                forall|cx: int, cy: int|
                    in_grid(g, cx, cy) && cy < y ==> !query_matches(*q, #[trigger] g[cy][cx], cx, cy),
            decreases h - y,
        {
            let row = &self.tiles[y];
            assert(row@ == g[y as int]);
            let mut x: usize = 0;
            while x < w
                invariant
                    g == self@,
                    is_grid(g),
                    h == g.len(),
                    w == g[0].len(),
                    0 <= y < h,
                    row@ == g[y as int],
                    0 <= x <= w,
                    forall|cx: int, cy: int|
                        in_grid(g, cx, cy) && (cy < y || (cy == y && cx < x)) ==> !query_matches(
                            *q,
                            #[trigger] g[cy][cx],
                            cx,
                            cy,
                        ),
                decreases w - x,
            {
                let t = row[x];
                let found = match q {
                    TileQuery::Start => t == Tile::Start,
                    TileQuery::Partner { index, except } => t == Tile::Teleporter(*index) && !(x as i64
                        == except.x as i64 && y as i64 == except.y as i64),
                };
                if found {
                    let ghost c = (x as int, y as int);
                    assert(is_first_match(g, *q, c));
                    proof {
                        lemma_first_match_exists(g, *q, c);
                        let d = choose|d: (int, int)| is_first_match(g, *q, d);
                        lemma_first_match_unique(g, *q, c, d);
                    }
                    return Some(Pos { x: x as i32, y: y as i32 });
                }
                x = x + 1;
            }
            y = y + 1;
        }
        assert forall|c: (int, int)| !is_first_match(g, *q, c) by {
            if is_first_match(g, *q, c) {
                assert(!query_matches(*q, g[c.1][c.0], c.0, c.1));
            }
        }
        None
    }
}

} // verus!
