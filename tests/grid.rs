use ice_puzzle::geometry::{Direction, Pos};
use ice_puzzle::levels::LEVEL_COUNT;
use ice_puzzle::tile_map::{GridError, Tile, TileMap, TileQuery, MAX_SIDE};

fn pos(x: i32, y: i32) -> Pos {
    Pos { x, y }
}

#[test]
fn unit_vectors_point_the_right_way() {
    assert_eq!(Direction::Left.get_unit_vec(), pos(-1, 0));
    assert_eq!(Direction::Right.get_unit_vec(), pos(1, 0));
    assert_eq!(Direction::Up.get_unit_vec(), pos(0, -1));
    assert_eq!(Direction::Down.get_unit_vec(), pos(0, 1));
}

#[test]
fn rotations_in_degrees() {
    assert_eq!(Direction::Up.get_rot(), 0);
    assert_eq!(Direction::Right.get_rot(), 90);
    assert_eq!(Direction::Down.get_rot(), 180);
    assert_eq!(Direction::Left.get_rot(), 270);
}

#[test]
fn builtin_levels_are_five_by_eight() {
    for id in 0..LEVEL_COUNT {
        let m = TileMap::new(id);
        assert_eq!(m.height(), 5);
        assert_eq!(m.width(), 8);
    }
}

#[test]
fn outside_the_grid_is_wall() {
    let m = TileMap::new(0);
    assert_eq!(m.tile_at(-1, 0), Tile::Wall);
    assert_eq!(m.tile_at(0, -1), Tile::Wall);
    assert_eq!(m.tile_at(8, 0), Tile::Wall);
    assert_eq!(m.tile_at(0, 5), Tile::Wall);
    assert_eq!(m.get_tile_at(pos(i32::MIN, i32::MAX)), Tile::Wall);
}

#[test]
fn inside_the_grid_reads_the_cell() {
    let m = TileMap::new(0);
    assert_eq!(m.tile_at(0, 0), Tile::Start);
    assert_eq!(m.tile_at(5, 0), Tile::Wall);
    assert_eq!(m.get_tile_at(pos(4, 3)), Tile::Target);
    let m = TileMap::new(1);
    assert_eq!(m.get_tile_at(pos(5, 0)), Tile::OneWay(Direction::Right));
    let m = TileMap::new(2);
    assert_eq!(m.get_tile_at(pos(0, 1)), Tile::Teleporter(0));
    assert_eq!(m.get_tile_at(pos(3, 3)), Tile::Teleporter(0));
}

#[test]
fn start_tiles_of_builtin_levels() {
    assert_eq!(TileMap::new(0).find_tile(&TileQuery::Start), Some(pos(0, 0)));
    assert_eq!(TileMap::new(1).find_tile(&TileQuery::Start), Some(pos(3, 0)));
    assert_eq!(TileMap::new(2).find_tile(&TileQuery::Start), Some(pos(3, 0)));
}

#[test]
fn partner_search_skips_the_excluded_cell() {
    let m = TileMap::new(2);
    let q = TileQuery::Partner { index: 0, except: pos(0, 1) };
    assert_eq!(m.find_tile(&q), Some(pos(3, 3)));
    let q = TileQuery::Partner { index: 0, except: pos(3, 3) };
    assert_eq!(m.find_tile(&q), Some(pos(0, 1)));
    let q = TileQuery::Partner { index: 1, except: pos(3, 3) };
    assert_eq!(m.find_tile(&q), None);
}

#[test]
fn search_returns_first_in_row_major_order() {
    let e = Tile::Empty;
    let t = Tile::Teleporter(4);
    let m = TileMap::from_rows(vec![vec![e, e, e], vec![e, e, t], vec![t, e, t]]).unwrap();
    let q = TileQuery::Partner { index: 4, except: pos(2, 2) };
    assert_eq!(m.find_tile(&q), Some(pos(2, 1)));
    let q = TileQuery::Partner { index: 4, except: pos(2, 1) };
    assert_eq!(m.find_tile(&q), Some(pos(0, 2)));
    assert_eq!(m.find_tile(&TileQuery::Start), None);
}

#[test]
fn rows_without_cells_are_refused() {
    assert_eq!(TileMap::from_rows(vec![]).unwrap_err(), GridError::Empty);
    assert_eq!(TileMap::from_rows(vec![vec![]]).unwrap_err(), GridError::Empty);
}

#[test]
fn ragged_rows_are_refused() {
    let e = Tile::Empty;
    let r = TileMap::from_rows(vec![vec![e, e], vec![e]]);
    assert_eq!(r.unwrap_err(), GridError::Ragged);
}

#[test]
fn oversized_grids_are_refused() {
    let wide = vec![vec![Tile::Empty; MAX_SIDE + 1]];
    assert_eq!(TileMap::from_rows(wide).unwrap_err(), GridError::TooLarge);
    let tall = vec![vec![Tile::Empty]; MAX_SIDE + 1];
    assert_eq!(TileMap::from_rows(tall).unwrap_err(), GridError::TooLarge);
    let largest = vec![vec![Tile::Empty; MAX_SIDE]; MAX_SIDE];
    let m = TileMap::from_rows(largest).unwrap();
    assert_eq!(m.width(), MAX_SIDE);
    assert_eq!(m.height(), MAX_SIDE);
}
