//! Sliding-ice puzzle core: a tile grid, a movement resolver that turns one
//! directional input into a list of motion segments, and an animator that
//! plays those segments back frame by frame.
use vstd::prelude::*;

pub mod geometry;
pub mod tile_map;
pub mod levels;
pub mod movement;
pub mod player;
pub mod level;
pub mod scene;
pub mod transition;

verus! {

} // verus!
