use ice_puzzle::geometry::{Direction, Pos};
use ice_puzzle::movement::MoveError;
use ice_puzzle::player::{PixelPos, Player, CELL_SIZE, SPEED};
use ice_puzzle::tile_map::{Tile, TileMap};

fn pos(x: i32, y: i32) -> Pos {
    Pos { x, y }
}

fn corner(p: Pos) -> PixelPos {
    PixelPos { x: p.x as i64 * CELL_SIZE, y: p.y as i64 * CELL_SIZE }
}

#[test]
fn new_player_rests_on_its_cell() {
    let p = Player::new(pos(2, 3));
    assert!(p.is_ready());
    assert_eq!(p.logical_position(), pos(2, 3));
    assert_eq!(p.visual_position(), PixelPos { x: 130, y: 195 });
}

#[test]
fn one_cell_slide_lasts_seventeen_ticks() {
    let e = Tile::Empty;
    let m = TileMap::from_rows(vec![vec![e, e]]).unwrap();
    let mut p = Player::new(pos(0, 0));
    p.set_direction(Direction::Right, &m).unwrap();
    assert_eq!(p.logical_position(), pos(1, 0));
    for k in 1..17 {
        p.update();
        assert!(!p.is_ready());
        assert_eq!(p.visual_position(), PixelPos { x: SPEED * k, y: 0 });
    }
    p.update();
    assert!(p.is_ready());
    assert_eq!(p.visual_position(), corner(pos(1, 0)));
}

#[test]
fn slide_takes_rounded_up_ticks_and_snaps() {
    let m = TileMap::new(0);
    let mut p = Player::new(pos(0, 0));
    p.set_direction(Direction::Right, &m).unwrap();
    assert_eq!(p.logical_position(), pos(4, 0));
    // four cells of 65 pixels at 4 pixels a tick: 260 / 4 = 65 ticks
    for _ in 0..64 {
        p.update();
        assert!(!p.is_ready());
    }
    p.update();
    assert!(p.is_ready());
    assert_eq!(p.visual_position(), corner(pos(4, 0)));
    let mut p = Player::new(pos(4, 0));
    p.set_direction(Direction::Down, &m).unwrap();
    // three cells: 195 / 4 rounds up to 49 ticks
    for _ in 0..48 {
        p.update();
        assert!(!p.is_ready());
    }
    p.update();
    assert!(p.is_ready());
    assert_eq!(p.visual_position(), corner(pos(4, 3)));
    assert!(p.reached_target(&m));
}

#[test]
fn input_is_ignored_while_animating() {
    let m = TileMap::new(0);
    let mut p = Player::new(pos(0, 0));
    p.set_direction(Direction::Right, &m).unwrap();
    p.update();
    assert_eq!(p.set_direction(Direction::Down, &m), Ok(()));
    assert_eq!(p.logical_position(), pos(4, 0));
}

#[test]
fn teleport_is_played_without_delay() {
    let m = TileMap::new(2);
    let mut p = Player::new(pos(1, 1));
    p.set_direction(Direction::Left, &m).unwrap();
    assert_eq!(p.logical_position(), pos(2, 3));
    // one cell to the teleporter: 17 ticks, then the jump in the next tick
    for _ in 0..17 {
        p.update();
    }
    assert_eq!(p.visual_position(), PixelPos { x: 65 - 68, y: 65 });
    p.update();
    assert_eq!(p.visual_position(), corner(pos(3, 3)));
    for _ in 0..16 {
        p.update();
        assert!(!p.is_ready());
    }
    p.update();
    assert!(p.is_ready());
    assert_eq!(p.visual_position(), corner(pos(2, 3)));
}

#[test]
fn blocked_move_leaves_player_in_place() {
    let m = TileMap::new(0);
    let mut p = Player::new(pos(0, 0));
    assert_eq!(p.set_direction(Direction::Up, &m), Ok(()));
    assert!(p.is_ready());
    assert_eq!(p.logical_position(), pos(0, 0));
    assert_eq!(p.visual_position(), corner(pos(0, 0)));
}

#[test]
fn failed_move_leaves_player_in_place() {
    let e = Tile::Empty;
    let m = TileMap::from_rows(vec![vec![e, e, Tile::Teleporter(9)]]).unwrap();
    let mut p = Player::new(pos(0, 0));
    assert_eq!(p.set_direction(Direction::Right, &m), Err(MoveError::UnmatchedTeleporter));
    assert!(p.is_ready());
    assert_eq!(p.logical_position(), pos(0, 0));
}
