//! The built-in levels.
use vstd::prelude::*;
use crate::geometry::Direction;
use crate::tile_map::{Tile, TileMap, is_grid};

verus! {

/// Number of built-in levels.
pub const LEVEL_COUNT: usize = 3;

/// The rows of built-in level `id`, top row first.
pub open spec fn level_layout(id: int) -> Seq<Seq<Tile>> {
    let w = Tile::Wall;
    let e = Tile::Empty;
    let s = Tile::Start;
    let t = Tile::Target;
    let r = Tile::OneWay(Direction::Right);
    let p = Tile::Teleporter(0);
    if id == 0 {
        seq![
            seq![s, e, e, e, e, w, e, e],
            seq![e, e, e, e, e, e, e, e],
            seq![e, e, e, e, e, e, e, e],
            seq![e, e, e, e, t, e, e, e],
            seq![e, e, e, e, e, e, e, e],
        ]
    } else if id == 1 {
        seq![
            seq![e, e, e, s, e, r, e, e],
            seq![e, w, e, e, e, e, e, e],
            seq![e, e, t, e, e, e, w, e],
            seq![e, e, e, e, e, e, e, e],
            seq![e, e, e, w, e, e, e, e],
        ]
    } else {
        seq![
            seq![e, e, w, s, e, e, e, e],
            seq![p, e, e, e, e, e, e, e],
            seq![e, w, e, e, e, e, e, e],
            seq![e, e, t, p, e, e, e, e],
            seq![e, e, r, e, e, e, e, e],
        ]
    }
}

/// The rows of built-in level `id`.
fn level_rows(id: usize) -> (r: Vec<Vec<Tile>>)
    requires
        id < LEVEL_COUNT,
    ensures
        r@.map_values(|row: Vec<Tile>| row@) == level_layout(id as int),
{
    let w = Tile::Wall;
    let e = Tile::Empty;
    let s = Tile::Start;
    let t = Tile::Target;
    let r = Tile::OneWay(Direction::Right);
    let p = Tile::Teleporter(0);
    let rows = if id == 0 {
        vec![
            vec![s, e, e, e, e, w, e, e],
            vec![e, e, e, e, e, e, e, e],
            vec![e, e, e, e, e, e, e, e],
            vec![e, e, e, e, t, e, e, e],
            vec![e, e, e, e, e, e, e, e],
        ]
    } else if id == 1 {
        vec![
            vec![e, e, e, s, e, r, e, e],
            vec![e, w, e, e, e, e, e, e],
            vec![e, e, t, e, e, e, w, e],
            vec![e, e, e, e, e, e, e, e],
            vec![e, e, e, w, e, e, e, e],
        ]
    } else {
        vec![
            vec![e, e, w, s, e, e, e, e],
            vec![p, e, e, e, e, e, e, e],
            vec![e, w, e, e, e, e, e, e],
            vec![e, e, t, p, e, e, e, e],
            vec![e, e, r, e, e, e, e, e],
        ]
    };
    assert(rows@.map_values(|row: Vec<Tile>| row@) =~= level_layout(id as int));
    rows
}

impl TileMap {
    /// Built-in level `map_id`.
    pub fn new(map_id: usize) -> (r: TileMap)
        requires
            map_id < LEVEL_COUNT,
        ensures
            r.wf(),
            r@ == level_layout(map_id as int),
    {
        let rows = level_rows(map_id);
        assert(is_grid(level_layout(map_id as int)));
        TileMap::from_rows(rows).unwrap()
    }
}

} // verus!
