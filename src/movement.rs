//! The movement resolver: casts a ray from the traveller's cell in the
//! requested direction and records the slides and teleports it makes.
use vstd::prelude::*;
use crate::geometry::{Direction, Pos, pos_of};
use crate::tile_map::{
    MAX_SIDE, Tile, TileMap, TileQuery, first_match, in_grid, is_first_match, is_grid, tile_of,
    lemma_first_match_unique,
};

verus! {

/// One segment of a resolved move, in the order it is played.
#[derive(Clone, Copy, Debug, PartialEq, Eq, Structural)]
pub enum Action {
    /// Slide `steps` cells in direction `dir`.
    Move { dir: Direction, steps: u32 },
    /// Jump at once to the given cell.
    Teleport(Pos),
}

/// Why a move could not be resolved.
#[derive(Clone, Copy, Debug, PartialEq, Eq, Structural)]
pub enum MoveError {
    /// A teleporter was entered that has no partner with its index.
    UnmatchedTeleporter,
    /// Teleporters keep passing the traveller round the same cells.
    TeleporterLoop,
}

/// The outcome of a resolved move: its segments and the cell it ends on.
pub type Outcome = Result<(Seq<Action>, (int, int)), MoveError>;

/// The slide of `run` cells that is still pending, if any.
pub open spec fn pending_slide(dir: Direction, run: nat) -> Seq<Action> {
    if run > 0 {
        seq![Action::Move { dir, steps: run as u32 }]
    } else {
        seq![]
    }
}

/// `r` with the segments `a` played before it.
pub open spec fn prepend(a: Seq<Action>, r: Outcome) -> Outcome {
    match r {
        Ok((s, end)) => Ok((a + s, end)),
        Err(e) => Err(e),
    }
}

/// The cell one step from `c` in direction `d`.
pub open spec fn step(c: (int, int), d: Direction) -> (int, int) {
    (c.0 + d.dx(), c.1 + d.dy())
}

/// The rest of a move in direction `dir` whose cursor stands on `cur`,
/// `run` cells into the current slide, with at most `fuel` more steps
/// before it is taken as a teleporter loop.
pub open spec fn walk(g: Seq<Seq<Tile>>, dir: Direction, cur: (int, int), run: nat, fuel: nat) -> Outcome
    decreases fuel,
{
    if fuel == 0 {
        Err(MoveError::TeleporterLoop)
    } else {
        let next = step(cur, dir);
        match tile_of(g, next.0, next.1) {
            Tile::Wall => Ok((pending_slide(dir, run), cur)),
            Tile::OneWay(d) => if d == dir {
                walk(g, dir, next, run + 1, (fuel - 1) as nat)
            } else {
                Ok((pending_slide(dir, run), cur))
            },
            Tile::Teleporter(k) => match first_match(
                g,
                TileQuery::Partner { index: k, except: pos_of(next) },
            ) {
                None => Err(MoveError::UnmatchedTeleporter),
                Some(p) => prepend(
                    seq![Action::Move { dir, steps: (run + 1) as u32 }, Action::Teleport(pos_of(p))],
                    walk(g, dir, p, 0, (fuel - 1) as nat),
                ),
            },
            Tile::Target => Ok((seq![Action::Move { dir, steps: (run + 1) as u32 }], next)),
            Tile::Empty | Tile::Start => walk(g, dir, next, run + 1, (fuel - 1) as nat),
        }
    }
}

/// Steps a move may take: one more than the number of cells. The cursor's
/// next step depends on its cell alone, so a move that takes more steps
/// than there are cells has come back to a cell and will go round forever.
pub open spec fn move_fuel(g: Seq<Seq<Tile>>) -> nat {
    (g.len() * g[0].len() + 1) as nat
}

/// The outcome of moving from `start` in direction `dir` on grid `g`.
pub open spec fn resolve_spec(g: Seq<Seq<Tile>>, start: Pos, dir: Direction) -> Outcome {
    walk(g, dir, (start.x as int, start.y as int), 0, move_fuel(g))
}

proof fn lemma_prepend_assoc(a: Seq<Action>, b: Seq<Action>, r: Outcome)
    ensures
        prepend(a, prepend(b, r)) == prepend(a + b, r),
{
    if let Ok((s, end)) = r {
        assert((a + b) + s =~= a + (b + s));
    }
}

proof fn lemma_prepend_empty(r: Outcome)
    ensures
        prepend(seq![], r) == r,
{
    if let Ok((s, end)) = r {
        assert(Seq::<Action>::empty() + s =~= s);
    }
}

/// Resolves a move from `start` in direction `dir`: the segments to play, in
/// order, and the cell the traveller ends on.
pub fn resolve(map: &TileMap, start: Pos, dir: Direction) -> (r: Result<(Vec<Action>, Pos), MoveError>)
    requires
        map.wf(),
    ensures
        match resolve_spec(map@, start, dir) {
            Ok((acts, end)) => r matches Ok((v, p)) && v@ == acts && p.x == end.0 && p.y == end.1,
            Err(e) => r == Err::<(Vec<Action>, Pos), MoveError>(e),
        },
{
    let ghost g = map@;
    let unit = dir.get_unit_vec();
    let h = map.height() as u64;
    let w = map.width() as u64;
    assert(h * w <= MAX_SIDE * MAX_SIDE) by (nonlinear_arith)
        requires
            h <= MAX_SIDE,
            w <= MAX_SIDE,
    ;
    let total: u64 = h * w + 1;
    let mut fuel: u64 = total;
    let mut cur = start;
    let mut run: u32 = 0;
    let mut out: Vec<Action> = Vec::new();
    proof {
        lemma_prepend_empty(resolve_spec(g, start, dir));
    }
    loop
        invariant
            g == map@,
            is_grid(g),
            unit.x == dir.dx(),
            unit.y == dir.dy(),
            total == move_fuel(g),
            total <= MAX_SIDE * MAX_SIDE + 1,
            fuel <= total,
            run + fuel <= total,
            resolve_spec(g, start, dir) == prepend(
                out@,
                walk(g, dir, (cur.x as int, cur.y as int), run as nat, fuel as nat),
            ),
        decreases fuel,
    {
        let ghost c = (cur.x as int, cur.y as int);
        if fuel == 0 {
            return Err(MoveError::TeleporterLoop);
        }
        let nx = cur.x as i64 + unit.x as i64;
        let ny = cur.y as i64 + unit.y as i64;
        let ghost next = step(c, dir);
        assert(nx == next.0 && ny == next.1);
        let tile = map.tile_at(nx, ny);
        if tile != Tile::Wall {
            assert(in_grid(g, nx as int, ny as int));
            assert(g[ny as int].len() == g[0].len());
        }
        match tile {
            Tile::Teleporter(index) => {
                let here = Pos { x: nx as i32, y: ny as i32 };
                match map.find_tile(&TileQuery::Partner { index, except: here }) {
                    None => {
                        return Err(MoveError::UnmatchedTeleporter);
                    },
                    Some(p) => {
                        let ghost before = out@;
                        let ghost pair = seq![
                            Action::Move { dir, steps: (run + 1) as u32 },
                            Action::Teleport(p),
                        ];
                        out.push(Action::Move { dir, steps: run + 1 });
                        out.push(Action::Teleport(p));
                        proof {
                            assert(out@ =~= before + pair);
                            lemma_prepend_assoc(
                                before,
                                pair,
                                walk(g, dir, (p.x as int, p.y as int), 0, (fuel - 1) as nat),
                            );
                        }
                        run = 0;
                        cur = p;
                    },
                }
            },
            Tile::Target => {
                out.push(Action::Move { dir, steps: run + 1 });
                return Ok((out, Pos { x: nx as i32, y: ny as i32 }));
            },
            Tile::OneWay(d) if d == dir => {
                cur = Pos { x: nx as i32, y: ny as i32 };
                run = run + 1;
            },
            Tile::Empty | Tile::Start => {
                cur = Pos { x: nx as i32, y: ny as i32 };
                run = run + 1;
            },
            Tile::Wall | Tile::OneWay(_) => {
                let ghost before = out@;
                if run > 0 {
                    out.push(Action::Move { dir, steps: run });
                }
                assert(out@ =~= before + pending_slide(dir, run as nat));
                return Ok((out, cur));
            },
        }
        fuel = fuel - 1;
    }
}

/// `g` with cell `c` made a wall.
pub open spec fn with_wall(g: Seq<Seq<Tile>>, c: (int, int)) -> Seq<Seq<Tile>> {
    g.update(c.1, g[c.1].update(c.0, Tile::Wall))
}

proof fn lemma_corridor_walk(
    g: Seq<Seq<Tile>>,
    start: Pos,
    dir: Direction,
    n: nat,
    i: nat,
    fuel: nat,
)
    requires
        1 <= n,
        i <= n,
        fuel > n - i,
        forall|j: int|
            1 <= j <= n ==> tile_of(g, #[trigger] start.shifted(dir, j).0, start.shifted(dir, j).1)
                == Tile::Empty,
        tile_of(g, start.shifted(dir, n + 1 as int).0, start.shifted(dir, n + 1 as int).1) == Tile::Wall,
    ensures
        walk(g, dir, start.shifted(dir, i as int), i, fuel) == Ok::<(Seq<Action>, (int, int)), MoveError>(
            (seq![Action::Move { dir, steps: n as u32 }], start.shifted(dir, n as int)),
        ),
    decreases n - i,
{
    let c = start.shifted(dir, i as int);
    let next = start.shifted(dir, i + 1 as int);
    assert(step(c, dir) == next) by (nonlinear_arith)
        requires
            c == start.shifted(dir, i as int),
            next == start.shifted(dir, i + 1 as int),
    ;
    if i < n {
        assert(tile_of(g, next.0, next.1) == Tile::Empty);
        lemma_corridor_walk(g, start, dir, n, i + 1, (fuel - 1) as nat);
    }
}

/// A move along a corridor of `n` empty cells that ends at a wall slides
/// through the whole corridor in one segment of `n` cells and stops on its
/// last cell.
pub proof fn lemma_corridor(g: Seq<Seq<Tile>>, start: Pos, dir: Direction, n: nat)
    requires
        is_grid(g),
        1 <= n,
        forall|j: int|
            1 <= j <= n ==> tile_of(g, #[trigger] start.shifted(dir, j).0, start.shifted(dir, j).1)
                == Tile::Empty,
        tile_of(g, start.shifted(dir, n + 1 as int).0, start.shifted(dir, n + 1 as int).1) == Tile::Wall,
    ensures
        resolve_spec(g, start, dir) == Ok::<(Seq<Action>, (int, int)), MoveError>(
            (seq![Action::Move { dir, steps: n as u32 }], start.shifted(dir, n as int)),
        ),
{
    let first = start.shifted(dir, 1);
    let last = start.shifted(dir, n as int);
    assert(tile_of(g, first.0, first.1) == Tile::Empty);
    assert(tile_of(g, last.0, last.1) == Tile::Empty);
    assert(g[first.1].len() == g[0].len());
    assert(g[last.1].len() == g[0].len());
    let h = g.len() as int;
    let w = g[0].len() as int;
    assert(n <= h && n <= h * w || n <= w && n <= h * w) by (nonlinear_arith)
        requires
            1 <= h,
            1 <= w,
            0 <= first.0 < w,
            0 <= first.1 < h,
            0 <= last.0 < w,
            0 <= last.1 < h,
            first.0 == start.x + dir.dx(),
            first.1 == start.y + dir.dy(),
            last.0 == start.x + n * dir.dx(),
            last.1 == start.y + n * dir.dy(),
            dir.dx() == 0 && (dir.dy() == 1 || dir.dy() == -1) || dir.dy() == 0 && (dir.dx() == 1
                || dir.dx() == -1),
    ;
    assert(start.shifted(dir, 0) == (start.x as int, start.y as int));
    lemma_corridor_walk(g, start, dir, n, 0, move_fuel(g));
}

/// A one-way tile entered in its own direction lets the slide run on
/// through it; entered in any other direction it stops the slide exactly as
/// a wall in its place would.
pub proof fn lemma_one_way(
    g: Seq<Seq<Tile>>,
    dir: Direction,
    cur: (int, int),
    run: nat,
    fuel: nat,
    allowed: Direction,
)
    requires
        fuel > 0,
        tile_of(g, step(cur, dir).0, step(cur, dir).1) == Tile::OneWay(allowed),
    ensures
        allowed == dir ==> walk(g, dir, cur, run, fuel) == walk(
            g,
            dir,
            step(cur, dir),
            run + 1,
            (fuel - 1) as nat,
        ),
        allowed != dir ==> walk(g, dir, cur, run, fuel) == walk(
            with_wall(g, step(cur, dir)),
            dir,
            cur,
            run,
            fuel,
        ),
        allowed != dir ==> walk(g, dir, cur, run, fuel) == Ok::<(Seq<Action>, (int, int)), MoveError>(
            (pending_slide(dir, run), cur),
        ),
{
    let next = step(cur, dir);
    let g2 = with_wall(g, next);
    assert(tile_of(g2, next.0, next.1) == Tile::Wall);
}

/// Entering a target ends the move on the target, whatever lies beyond it.
pub proof fn lemma_target_ends_move(
    g: Seq<Seq<Tile>>,
    dir: Direction,
    cur: (int, int),
    run: nat,
    fuel: nat,
)
    requires
        fuel > 0,
        tile_of(g, step(cur, dir).0, step(cur, dir).1) == Tile::Target,
    ensures
        walk(g, dir, cur, run, fuel) == Ok::<(Seq<Action>, (int, int)), MoveError>(
            (seq![Action::Move { dir, steps: (run + 1) as u32 }], step(cur, dir)),
        ),
{
}

/// When exactly two cells `a` and `b` hold teleporters with index `k`, each
/// is the other's partner, and entering `a` slides onto it, jumps to `b`'s
/// exact cell and carries on from there in the same direction.
pub proof fn lemma_teleport_pairing(
    g: Seq<Seq<Tile>>,
    k: u32,
    a: (int, int),
    b: (int, int),
    dir: Direction,
    cur: (int, int),
    run: nat,
    fuel: nat,
)
    requires
        is_grid(g),
        in_grid(g, a.0, a.1),
        in_grid(g, b.0, b.1),
        a != b,
        g[a.1][a.0] == Tile::Teleporter(k),
        g[b.1][b.0] == Tile::Teleporter(k),
        forall|x: int, y: int|
            in_grid(g, x, y) && #[trigger] g[y][x] == Tile::Teleporter(k) ==> (x, y) == a || (x, y)
                == b,
        step(cur, dir) == a,
        fuel > 0,
    ensures
        first_match(g, TileQuery::Partner { index: k, except: pos_of(a) }) == Some(b),
        first_match(g, TileQuery::Partner { index: k, except: pos_of(b) }) == Some(a),
        walk(g, dir, cur, run, fuel) == prepend(
            seq![Action::Move { dir, steps: (run + 1) as u32 }, Action::Teleport(pos_of(b))],
            walk(g, dir, b, 0, (fuel - 1) as nat),
        ),
{
    assert(g[a.1].len() == g[0].len());
    assert(g[b.1].len() == g[0].len());
    lemma_partner_of(g, k, a, b);
    lemma_partner_of(g, k, b, a);
}

proof fn lemma_partner_of(g: Seq<Seq<Tile>>, k: u32, a: (int, int), b: (int, int))
    requires
        is_grid(g),
        in_grid(g, a.0, a.1),
        in_grid(g, b.0, b.1),
        a != b,
        g[b.1][b.0] == Tile::Teleporter(k),
        forall|x: int, y: int|
            in_grid(g, x, y) && #[trigger] g[y][x] == Tile::Teleporter(k) ==> (x, y) == a || (x, y)
                == b,
    ensures
        first_match(g, TileQuery::Partner { index: k, except: pos_of(a) }) == Some(b),
{
    assert(g[a.1].len() == g[0].len());
    let q = TileQuery::Partner { index: k, except: pos_of(a) };
    assert(pos_of(a).x == a.0 && pos_of(a).y == a.1);
    assert(is_first_match(g, q, b));
    let d = choose|d: (int, int)| is_first_match(g, q, d);
    lemma_first_match_unique(g, q, b, d);
}

/// A move whose first step meets a wall makes no segment and leaves the
/// traveller where it was.
pub proof fn lemma_blocked_move(g: Seq<Seq<Tile>>, start: Pos, dir: Direction)
    requires
        is_grid(g),
        tile_of(g, start.x + dir.dx(), start.y + dir.dy()) == Tile::Wall,
    ensures
        resolve_spec(g, start, dir) == Ok::<(Seq<Action>, (int, int)), MoveError>(
            (seq![], (start.x as int, start.y as int)),
        ),
{
    assert(g.len() * g[0].len() >= 0) by (nonlinear_arith)
        requires
            g.len() >= 0,
            g[0].len() >= 0,
    ;
}

/// Most cells one slide segment can cover: one more than a grid can hold.
pub const MAX_STEPS: u32 = 1048577;

/// What every resolved outcome satisfies: at most two segments per step of
/// fuel, every slide between one and `MAX_STEPS` cells, and a move with no
/// segment ends where it began.
pub open spec fn well_shaped(out: Seq<Action>, end: (int, int), cur: (int, int), fuel: nat) -> bool {
    &&& out.len() <= 2 * fuel
    &&& forall|i: int|
        0 <= i < out.len() ==> match #[trigger] out[i] {
            Action::Move { steps, .. } => 1 <= steps <= MAX_STEPS,
            Action::Teleport(_) => true,
        }
    &&& out.len() == 0 ==> end == cur
}

/// Every successful walk is well shaped.
pub proof fn lemma_walk_shape(g: Seq<Seq<Tile>>, dir: Direction, cur: (int, int), run: nat, fuel: nat)
    requires
        run + fuel <= MAX_STEPS,
    ensures
        walk(g, dir, cur, run, fuel) matches Ok((out, end)) ==> well_shaped(out, end, cur, fuel)
            && (run > 0 ==> out.len() > 0),
    decreases fuel,
{
    if fuel > 0 {
        let next = step(cur, dir);
        let f1 = (fuel - 1) as nat;
        match tile_of(g, next.0, next.1) {
            Tile::Teleporter(k) => {
                lemma_walk_shape(g, dir, next, run + 1, f1);
                match first_match(g, TileQuery::Partner { index: k, except: pos_of(next) }) {
                    None => {},
                    Some(p) => {
                        lemma_walk_shape(g, dir, p, 0, f1);
                        if let Ok((rest, end)) = walk(g, dir, p, 0, f1) {
                            let pair = seq![
                                Action::Move { dir, steps: (run + 1) as u32 },
                                Action::Teleport(pos_of(p)),
                            ];
                            let out = pair + rest;
                            assert forall|i: int| 0 <= i < out.len() implies match #[trigger] out[i] {
                                Action::Move { steps, .. } => 1 <= steps <= MAX_STEPS,
                                Action::Teleport(_) => true,
                            } by {
                                if i >= 2 {
                                    assert(out[i] == rest[i - 2]);
                                }
                            }
                        }
                    },
                }
            },
            _ => {
                lemma_walk_shape(g, dir, next, run + 1, f1);
            },
        }
    }
}

} // verus!
