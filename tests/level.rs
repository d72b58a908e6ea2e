use ice_puzzle::geometry::{Direction, Pos};
use ice_puzzle::level::{Level, Progress};
use ice_puzzle::scene::{Scene, SceneAction};

fn pos(x: i32, y: i32) -> Pos {
    Pos { x, y }
}

#[test]
fn levels_begin_on_their_start_tile() {
    let l = Level::new(0).unwrap();
    assert_eq!(l.map_id(), 0);
    assert_eq!(l.player().logical_position(), pos(0, 0));
    assert_eq!(Level::new(1).unwrap().player().logical_position(), pos(3, 0));
    assert_eq!(Level::new(2).unwrap().player().logical_position(), pos(3, 0));
}

#[test]
fn first_level_solved_right_then_down() {
    let mut l = Level::new(0).unwrap();
    l.move_player(Direction::Right).unwrap();
    assert_eq!(l.player().logical_position(), pos(4, 0));
    while !l.player().is_ready() {
        assert_eq!(l.update(), Ok(Progress::Playing));
    }
    l.move_player(Direction::Down).unwrap();
    assert_eq!(l.player().logical_position(), pos(4, 3));
    // the target is reached as soon as the move is resolved
    assert_eq!(l.update(), Ok(Progress::Advanced));
    assert_eq!(l.map_id(), 1);
    assert_eq!(l.player().logical_position(), pos(3, 0));
    assert!(l.player().is_ready());
}

fn play(l: &mut Level, dir: Direction, expected: Pos) {
    l.move_player(dir).unwrap();
    assert_eq!(l.player().logical_position(), expected);
    while !l.player().is_ready() {
        assert_eq!(l.update(), Ok(Progress::Playing));
    }
}

#[test]
fn last_level_completes() {
    let mut l = Level::new(2).unwrap();
    play(&mut l, Direction::Right, pos(7, 0));
    play(&mut l, Direction::Down, pos(7, 4));
    play(&mut l, Direction::Left, pos(3, 4));
    play(&mut l, Direction::Up, pos(0, 0));
    play(&mut l, Direction::Right, pos(1, 0));
    play(&mut l, Direction::Down, pos(1, 1));
    l.move_player(Direction::Left).unwrap();
    assert_eq!(l.player().logical_position(), pos(2, 3));
    assert_eq!(l.update(), Ok(Progress::Completed));
    assert_eq!(l.map_id(), 2);
}

#[test]
fn scene_values_compare_by_content() {
    assert_eq!(SceneAction::Change(Scene::Level(0)), SceneAction::Change(Scene::Level(0)));
    assert_ne!(SceneAction::Push(Scene::Level(1)), SceneAction::Push(Scene::Level(2)));
    assert_ne!(SceneAction::Pop(1), SceneAction::Quit);
    assert_ne!(Scene::Splash, Scene::MainMenu);
}
