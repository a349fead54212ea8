//! The game's finite state machine states.

use vstd::prelude::*;

verus! {

/// The three top-level states. `Menu` is initial; the only transitions
/// are Menu -> Playing and GameOver -> Playing (on a start input) and
/// Playing -> GameOver (on a collision).
#[derive(Clone, Copy, Debug, PartialEq, Eq, Hash, Structural)]
pub enum GameState {
    Menu,
    Playing,
    GameOver,
}

} // verus!
