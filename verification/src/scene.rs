//! Scene-stack actions: what a scene's input handler asks the surrounding
//! shell to do with the scene stack.

use vstd::prelude::*;

verus! {

/// The action a scene hands back after processing input.
///
/// `NONE` resumes the current scene; `EXIT` leaves the program; `GAME`
/// starts the game; `MAINMENU` unwinds to the main menu; `PAUSEMENU` and
/// `SETTINGS` push their scene; `BACK` returns to the previous scene.
#[derive(Clone, Copy, PartialEq, Eq, Structural, Debug)]
pub enum SceneAction {
    NONE,
    EXIT,
    GAME,
    MAINMENU,
    PAUSEMENU,
    SETTINGS,
    BACK,
}

} // verus!
