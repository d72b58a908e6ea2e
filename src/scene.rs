//! Names of the game's screens, and the changes a screen can ask for.
use vstd::prelude::*;

verus! {

/// A screen of the game.
#[derive(Clone, Copy, Debug, PartialEq, Eq, Structural)]
pub enum Scene {
    Splash,
    /// Built-in level with the given number.
    Level(usize),
    MainMenu,
}

/// What a screen asks of the stack of screens after handling a tick or an
/// event.
#[derive(Clone, Copy, Debug, PartialEq, Eq, Structural)]
pub enum SceneAction {
    NoChange,
    /// Put a new screen on top.
    Push(Scene),
    /// Replace the top screen.
    Change(Scene),
    /// Remove this many screens from the top.
    Pop(u32),
    Quit,
}

} // verus!
