//! The screens of the game.

use vstd::prelude::*;

verus! {

/// The screen the game is on.
#[derive(Debug, Clone, Copy, PartialEq, Eq, Structural, Hash)]
pub enum GameState {
    /// The main menu.
    MainMenu,
    /// The prologue.
    Prologue,
    /// The world map.
    WorldMap,
    /// A battle.
    Combat,
    /// The rewards after a battle.
    Reward,
    /// A shop.
    Shop,
    /// A rest.
    Rest,
    /// A tribulation (a realm breakthrough).
    Tribulation,
    /// A chance encounter.
    Event,
    /// Defeat.
    GameOver,
}

impl Default for GameState {
    fn default() -> (r: Self)
        ensures
            r == GameState::MainMenu,
    {
        GameState::MainMenu
    }
}

} // verus!
