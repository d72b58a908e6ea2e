//! A level being played: the grid, the traveller on it, and the advance
//! to the next built-in level once a target is reached.
use vstd::prelude::*;
use crate::geometry::{Direction, pos_of};
use crate::levels::{LEVEL_COUNT, level_layout};
use crate::movement::MoveError;
use crate::player::{Player, PlayerView, cell_pixels, request_move};
use crate::tile_map::{Tile, TileMap, TileQuery, first_match, tile_of};

verus! {

/// Why a level cannot be played.
#[derive(Clone, Copy, Debug, PartialEq, Eq, Structural)]
pub enum LevelError {
    /// The level has no `Start` tile.
    MissingStartTile,
}

/// What a tick of a level led to.
#[derive(Clone, Copy, Debug, PartialEq, Eq, Structural)]
pub enum Progress {
    /// The traveller is not on a target.
    Playing,
    /// The traveller reached a target and the next level has begun.
    Advanced,
    /// The traveller is on a target of the last level.
    Completed,
}

/// The traveller as it appears when grid `g` begins: at rest on the first
/// `Start` tile, if there is one.
pub open spec fn spawn(g: Seq<Seq<Tile>>) -> Option<PlayerView> {
    match first_match(g, TileQuery::Start) {
        Some(c) => Some(
            PlayerView { queue: seq![], counter: 0, visual: cell_pixels(pos_of(c)), logical: pos_of(c) },
        ),
        None => None,
    }
}

/// A built-in level being played.
pub struct Level {
    player: Player,
    map_id: usize,
    tile_map: TileMap,
}

impl Level {
    /// Which built-in level is being played.
    pub closed spec fn spec_map_id(&self) -> int {
        self.map_id as int
    }

    /// The traveller.
    pub closed spec fn spec_player(&self) -> PlayerView {
        self.player@
    }

    /// The level's invariant: a built-in level's grid and a well-formed
    /// traveller.
    pub closed spec fn wf(&self) -> bool {
        &&& self.map_id < LEVEL_COUNT
        &&& self.tile_map.wf()
        &&& self.tile_map@ == level_layout(self.map_id as int)
        &&& self.player.wf()
    }

    /// Begins built-in level `level_id`, with the traveller on its `Start`
    /// tile.
    pub fn new(level_id: usize) -> (r: Result<Level, LevelError>)
        requires
            level_id < LEVEL_COUNT,
        ensures
            match spawn(level_layout(level_id as int)) {
                Some(v) => r matches Ok(l) && l.wf() && l.spec_map_id() == level_id && l.spec_player()
                    == v,
                None => r matches Err(LevelError::MissingStartTile),
            },
    {
        let tile_map = TileMap::new(level_id);
        match tile_map.find_tile(&TileQuery::Start) {
            Some(start) => Ok(Level { player: Player::new(start), map_id: level_id, tile_map }),
            None => Err(LevelError::MissingStartTile),
        }
    }

    /// Asks the traveller to move in direction `dir` (see
    /// `Player::set_direction`).
    pub fn move_player(&mut self, dir: Direction) -> (r: Result<(), MoveError>)
        requires
            old(self).wf(),
        ensures
            final(self).wf(),
            final(self).spec_map_id() == old(self).spec_map_id(),
            match request_move(old(self).spec_player(), level_layout(old(self).spec_map_id()), dir) {
                Ok(w) => r is Ok && final(self).spec_player() == w,
                Err(e) => r == Err::<(), MoveError>(e) && final(self).spec_player()
                    == old(self).spec_player(),
            },
    {
        self.player.set_direction(dir, &self.tile_map)
    }

    /// Plays one tick. When the traveller then stands on a target, the next
    /// built-in level begins, or, on the last one, the level is completed.
    pub fn update(&mut self) -> (r: Result<Progress, LevelError>)
        requires
            old(self).wf(),
        ensures
            final(self).wf(),
            ({
                let id = old(self).spec_map_id();
                let p = old(self).spec_player().tick();
                if tile_of(level_layout(id), p.logical.x as int, p.logical.y as int) != Tile::Target {
                    r == Ok::<Progress, LevelError>(Progress::Playing) && final(self).spec_map_id()
                        == id && final(self).spec_player() == p
                } else if id + 1 >= LEVEL_COUNT {
                    r == Ok::<Progress, LevelError>(Progress::Completed) && final(self).spec_map_id()
                        == id && final(self).spec_player() == p
                } else {
                    match spawn(level_layout(id + 1)) {
                        Some(v) => r == Ok::<Progress, LevelError>(Progress::Advanced)
                            && final(self).spec_map_id() == id + 1 && final(self).spec_player() == v,
                        None => r == Err::<Progress, LevelError>(LevelError::MissingStartTile)
                            && final(self).spec_map_id() == id && final(self).spec_player() == p,
                    }
                }
            }),
    {
        self.player.update();
        if !self.player.reached_target(&self.tile_map) {
            return Ok(Progress::Playing);
        }
        if self.map_id + 1 >= LEVEL_COUNT {
            return Ok(Progress::Completed);
        }
        match Level::new(self.map_id + 1) {
            Ok(next) => {
                *self = next;
                Ok(Progress::Advanced)
            },
            Err(e) => Err(e),
        }
    }

    /// Which built-in level is being played.
    pub fn map_id(&self) -> (r: usize)
        ensures
            r == self.spec_map_id(),
    {
        self.map_id
    }

    /// The traveller.
    pub fn player(&self) -> (r: &Player)
        ensures
            r@ == self.spec_player(),
            self.wf() ==> r.wf(),
    {
        &self.player
    }

    /// The grid of the level.
    pub fn tile_map(&self) -> (r: &TileMap)
        ensures
            self.wf() ==> r.wf() && r@ == level_layout(self.spec_map_id()),
    {
        &self.tile_map
    }
}

} // verus!
