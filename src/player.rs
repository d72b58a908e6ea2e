//! The traveller: its cell on the grid, and the queue of segments that
//! animates its position on screen towards that cell.
use vstd::prelude::*;
use std::collections::VecDeque;
use crate::geometry::{Direction, Pos, pos_of};
use crate::movement::{
    Action, MAX_STEPS, MoveError, lemma_blocked_move, lemma_walk_shape, move_fuel, resolve, resolve_spec, well_shaped,
};
use crate::tile_map::{MAX_SIDE, Tile, TileMap, is_grid, tile_of};

verus! {

/// Pixels between the top left corners of neighbouring cells.
pub const CELL_SIZE: i64 = 65;

/// Pixels a sliding traveller covers in one tick.
pub const SPEED: i64 = 4;

/// Most segments a queue can hold: two for each step a move may take.
pub const MAX_QUEUE: usize = 2097154;

/// Ticks the longest slide can last.
pub const MAX_SLIDE_TICKS: u32 = 17039377;

/// Bound on the on-screen coordinates, far inside the range of `i64`.
pub const SCREEN_LIMIT: i64 = 1152921504606846976;

/// A point on screen, in pixels.
#[derive(Clone, Copy, Debug, PartialEq, Eq, Structural)]
pub struct PixelPos {
    pub x: i64,
    pub y: i64,
}

/// The traveller.
#[derive(Debug)]
pub struct Player {
    action_queue: VecDeque<Action>,
    action_counter: u32,
    window_pos: PixelPos,
    map_pos: Pos,
}

/// The state of a traveller as mathematical values.
pub struct PlayerView {
    /// Segments still to play, the one playing first.
    pub queue: Seq<Action>,
    /// Ticks left of the slide playing, or 0 when none has begun.
    pub counter: nat,
    /// Position on screen, in pixels.
    pub visual: (int, int),
    /// The cell the traveller is on.
    pub logical: Pos,
}

/// The screen position of the top left corner of cell `p`.
pub open spec fn cell_pixels(p: Pos) -> (int, int) {
    (p.x * CELL_SIZE, p.y * CELL_SIZE)
}

/// Ticks a slide of `steps` cells lasts: the cells' width in pixels over
/// the speed, rounded up.
pub open spec fn slide_ticks(steps: u32) -> nat {
    ((steps * CELL_SIZE + SPEED - 1) / (SPEED as int)) as nat
}

impl PlayerView {
    /// The state one tick later. The slide at the head of the queue moves the
    /// screen position by `SPEED` pixels and leaves the queue once its ticks
    /// are spent; a teleport sets the screen position to its cell and leaves
    /// at once. When the queue is empty the screen position is that of the
    /// traveller's cell.
    pub open spec fn tick(self) -> PlayerView {
        if self.queue.len() == 0 {
            PlayerView { visual: cell_pixels(self.logical), ..self }
        } else {
            let (counter, visual) = match self.queue[0] {
                Action::Move { dir, steps } => {
                    let left = if self.counter == 0 {
                        slide_ticks(steps)
                    } else {
                        self.counter
                    };
                    (
                        (left - 1) as nat,
                        (self.visual.0 + dir.dx() * SPEED, self.visual.1 + dir.dy() * SPEED),
                    )
                },
                Action::Teleport(p) => (self.counter, cell_pixels(p)),
            };
            let queue = if counter == 0 {
                self.queue.drop_first()
            } else {
                self.queue
            };
            let visual = if queue.len() == 0 {
                cell_pixels(self.logical)
            } else {
                visual
            };
            PlayerView { queue, counter, visual, logical: self.logical }
        }
    }

    /// The state after `k` ticks.
    pub open spec fn ticks(self, k: nat) -> PlayerView
        decreases k,
    {
        if k == 0 {
            self
        } else {
            self.ticks((k - 1) as nat).tick()
        }
    }
}

/// The traveller `v` after a request to move in direction `dir` on grid
/// `g`: unchanged while segments are playing; otherwise on the cell the move
/// ends on, with the move's segments queued, or the move's error.
pub open spec fn request_move(v: PlayerView, g: Seq<Seq<Tile>>, dir: Direction) -> Result<
    PlayerView,
    MoveError,
> {
    if v.queue.len() > 0 {
        Ok(v)
    } else {
        match resolve_spec(g, v.logical, dir) {
            Ok((acts, end)) => Ok(PlayerView { queue: acts, logical: pos_of(end), ..v }),
            Err(e) => Err(e),
        }
    }
}

/// Whether `a` is a segment the animator can play: a slide of between one
/// and `MAX_STEPS` cells, or a teleport.
pub open spec fn playable(a: Action) -> bool {
    match a {
        Action::Move { steps, .. } => 1 <= steps <= MAX_STEPS,
        Action::Teleport(_) => true,
    }
}

/// A bound on the ticks the queue has left to play.
pub open spec fn ticks_left_bound(len: int, counter: int) -> int {
    if counter > 0 {
        counter + (len - 1) * MAX_SLIDE_TICKS
    } else {
        len * MAX_SLIDE_TICKS
    }
}

impl View for Player {
    type V = PlayerView;

    closed spec fn view(&self) -> PlayerView {
        PlayerView {
            queue: self.action_queue@,
            counter: self.action_counter as nat,
            visual: (self.window_pos.x as int, self.window_pos.y as int),
            logical: self.map_pos,
        }
    }
}

impl Player {
    /// The traveller's invariant: every queued segment is playable, a slide
    /// under way has at most its own ticks left, the screen position is that
    /// of the cell whenever the queue is empty, and the screen position stays
    /// far enough inside its bounds for every tick still to play.
    pub closed spec fn wf(&self) -> bool {
        let v = self@;
        &&& v.queue.len() <= MAX_QUEUE
        &&& forall|i: int| 0 <= i < v.queue.len() ==> playable(#[trigger] v.queue[i])
        &&& v.counter > 0 ==> v.queue.len() > 0 && (v.queue[0] matches Action::Move { steps, .. }
            && v.counter <= slide_ticks(steps))
        &&& v.queue.len() == 0 ==> v.visual == cell_pixels(v.logical)
        &&& -SCREEN_LIMIT <= v.visual.0 - SPEED * ticks_left_bound(v.queue.len() as int, v.counter as int)
        &&& v.visual.0 + SPEED * ticks_left_bound(v.queue.len() as int, v.counter as int) <= SCREEN_LIMIT
        &&& -SCREEN_LIMIT <= v.visual.1 - SPEED * ticks_left_bound(v.queue.len() as int, v.counter as int)
        &&& v.visual.1 + SPEED * ticks_left_bound(v.queue.len() as int, v.counter as int) <= SCREEN_LIMIT
    }

    /// A traveller standing still on `starting_position`.
    pub fn new(starting_position: Pos) -> (r: Player)
        ensures
            r.wf(),
            r@ == (PlayerView {
                queue: seq![],
                counter: 0,
                visual: cell_pixels(starting_position),
                logical: starting_position,
            }),
    {
        let r = Player {
            action_queue: VecDeque::new(),
            action_counter: 0,
            window_pos: cell_corner(starting_position),
            map_pos: starting_position,
        };
        r
    }

    /// Plays one tick of the queued segments (see `PlayerView::tick`).
    pub fn update(&mut self)
        requires
            old(self).wf(),
        ensures
            final(self).wf(),
            final(self)@ == old(self)@.tick(),
    {
        let ghost v = self@;
        if self.action_queue.len() > 0 {
            assert(playable(v.queue[0]));
            match self.action_queue[0] {
                Action::Move { dir, steps } => {
                    if self.action_counter == 0 {
                        self.action_counter = slide_ticks_of(steps);
                    }
                    let unit = dir.get_unit_vec();
                    self.window_pos.x = self.window_pos.x + unit.x as i64 * SPEED;
                    self.window_pos.y = self.window_pos.y + unit.y as i64 * SPEED;
                    self.action_counter = self.action_counter - 1;
                },
                Action::Teleport(pos) => {
                    self.window_pos = cell_corner(pos);
                },
            }
        }
        if self.action_queue.len() > 0 && self.action_counter == 0 {
            self.action_queue.pop_front();
        }
        if self.action_queue.len() == 0 {
            self.window_pos = cell_corner(self.map_pos);
        }
        proof {
            let w = self@;
            assert(w == v.tick());
            assert forall|i: int| 0 <= i < w.queue.len() implies playable(#[trigger] w.queue[i]) by {
                if w.queue.len() < v.queue.len() {
                    assert(w.queue[i] == v.queue[i + 1]);
                } else {
                    assert(w.queue[i] == v.queue[i]);
                }
            }
        }
    }

    /// Whether the queue is empty, so that a new move is accepted.
    pub fn is_ready(&self) -> (r: bool)
        ensures
            r == (self@.queue.len() == 0),
    {
        self.action_queue.len() == 0
    }

    /// The cell the traveller is on.
    pub fn logical_position(&self) -> (r: Pos)
        ensures
            r == self@.logical,
    {
        self.map_pos
    }

    /// Where the traveller is drawn, in pixels.
    pub fn visual_position(&self) -> (r: PixelPos)
        ensures
            r.x == self@.visual.0,
            r.y == self@.visual.1,
    {
        self.window_pos
    }

    /// Whether the traveller stands on a target of `tile_map`.
    pub fn reached_target(&self, tile_map: &TileMap) -> (r: bool)
        ensures
            r == (tile_of(tile_map@, self@.logical.x as int, self@.logical.y as int) == Tile::Target),
    {
        tile_map.get_tile_at(self.map_pos) == Tile::Target
    }

    /// Asks the traveller to move in direction `dir` on `tile_map`. While
    /// segments are still playing the request is ignored. Otherwise the whole
    /// move is resolved at once: the traveller's cell becomes the cell the
    /// move ends on and its segments are queued for playing. A move that
    /// cannot be resolved changes nothing and returns its error.
    pub fn set_direction(&mut self, dir: Direction, tile_map: &TileMap) -> (r: Result<(), MoveError>)
        requires
            old(self).wf(),
            tile_map.wf(),
        ensures
            final(self).wf(),
            match request_move(old(self)@, tile_map@, dir) {
                Ok(w) => r is Ok && final(self)@ == w,
                Err(e) => r == Err::<(), MoveError>(e) && final(self)@ == old(self)@,
            },
    {
        if !self.is_ready() {
            return Ok(());
        }
        let ghost v = self@;
        let ghost g = tile_map@;
        match resolve(tile_map, self.map_pos, dir) {
            Err(e) => Err(e),
            Ok((acts, end)) => {
                proof {
                    let h = g.len();
                    let w = g[0].len();
                    assert(h * w <= MAX_SIDE * MAX_SIDE) by (nonlinear_arith)
                        requires
                            h <= MAX_SIDE,
                            w <= MAX_SIDE,
                    ;
                    lemma_walk_shape(
                        g,
                        dir,
                        (v.logical.x as int, v.logical.y as int),
                        0,
                        move_fuel(g),
                    );
                    assert(well_shaped(
                        acts@,
                        (end.x as int, end.y as int),
                        (v.logical.x as int, v.logical.y as int),
                        move_fuel(g),
                    ));
                }
                let mut i: usize = 0;
                while i < acts.len()
                    invariant
                        0 <= i <= acts@.len(),
                        self.action_queue@ == acts@.subrange(0, i as int),
                        self.action_counter == v.counter,
                        self.window_pos.x == v.visual.0,
                        self.window_pos.y == v.visual.1,
                        self.map_pos == v.logical,
                    decreases acts@.len() - i,
                {
                    self.action_queue.push_back(acts[i]);
                    assert(self.action_queue@ =~= acts@.subrange(0, i + 1));
                    i = i + 1;
                }
                assert(self.action_queue@ =~= acts@);
                self.map_pos = end;
                Ok(())
            },
        }
    }
}

/// Ticks a slide of `steps` cells lasts.
fn slide_ticks_of(steps: u32) -> (r: u32)
    requires
        1 <= steps <= MAX_STEPS,
    ensures
        r == slide_ticks(steps),
        1 <= r <= MAX_SLIDE_TICKS,
{
    ((steps as u64 * CELL_SIZE as u64 + SPEED as u64 - 1) / SPEED as u64) as u32
}

/// The screen position of the top left corner of cell `p`.
fn cell_corner(p: Pos) -> (r: PixelPos)
    ensures
        r.x == cell_pixels(p).0,
        r.y == cell_pixels(p).1,
{
    PixelPos { x: p.x as i64 * CELL_SIZE, y: p.y as i64 * CELL_SIZE }
}

proof fn lemma_slide_progress(v: PlayerView, dir: Direction, n: u32, j: nat)
    requires
        v.queue == seq![Action::Move { dir, steps: n }],
        v.counter == 0,
        1 <= n,
        1 <= j < slide_ticks(n),
    ensures
        v.ticks(j) == (PlayerView {
            queue: v.queue,
            counter: (slide_ticks(n) - j) as nat,
            visual: (v.visual.0 + j * dir.dx() * SPEED, v.visual.1 + j * dir.dy() * SPEED),
            logical: v.logical,
        }),
    decreases j,
{
    let prev = v.ticks((j - 1) as nat);
    assert(v.ticks(j) == prev.tick());
    if j > 1 {
        lemma_slide_progress(v, dir, n, (j - 1) as nat);
    } else {
        assert(prev == v);
    }
    assert((j - 1) * dir.dx() * SPEED + dir.dx() * SPEED == j * dir.dx() * SPEED) by (nonlinear_arith);
    assert((j - 1) * dir.dy() * SPEED + dir.dy() * SPEED == j * dir.dy() * SPEED) by (nonlinear_arith);
}

/// A slide of `n` cells, queued alone on a traveller at rest, plays for
/// exactly `slide_ticks(n)` ticks: the queue still holds it after every
/// earlier tick and is empty after that one, with the screen position
/// exactly on the traveller's cell.
pub proof fn lemma_slide_timing(v: PlayerView, dir: Direction, n: u32)
    requires
        v.queue == seq![Action::Move { dir, steps: n }],
        v.counter == 0,
        1 <= n,
    ensures
        forall|j: nat| j < slide_ticks(n) ==> (#[trigger] v.ticks(j)).queue.len() == 1,
        v.ticks(slide_ticks(n)).queue.len() == 0,
        v.ticks(slide_ticks(n)).visual == cell_pixels(v.logical),
{
    let k = slide_ticks(n);
    assert(k >= 1) by (nonlinear_arith)
        requires
            k == (n * CELL_SIZE + SPEED - 1) / (SPEED as int),
            1 <= n,
    ;
    assert forall|j: nat| j < k implies (#[trigger] v.ticks(j)).queue.len() == 1 by {
        if j > 0 {
            lemma_slide_progress(v, dir, n, j);
        }
    }
    if k > 1 {
        lemma_slide_progress(v, dir, n, (k - 1) as nat);
    }
    assert(v.ticks(k) == v.ticks((k - 1) as nat).tick());
}

/// A request, made at rest, to move towards a wall right next to the
/// traveller leaves the traveller exactly as it was: no segment is queued
/// and its cell is unchanged.
pub proof fn lemma_blocked_request(v: PlayerView, g: Seq<Seq<Tile>>, dir: Direction)
    requires
        is_grid(g),
        v.queue.len() == 0,
        tile_of(g, v.logical.x + dir.dx(), v.logical.y + dir.dy()) == Tile::Wall,
    ensures
        request_move(v, g, dir) == Ok::<PlayerView, MoveError>(v),
{
    lemma_blocked_move(g, v.logical, dir);
    assert(v.queue =~= seq![]);
}

} // verus!
