//! What a saved game holds.

use crate::cards::Card;
use crate::combat::Player;
use crate::cultivation::Cultivation;
use crate::map::MapNode;
use crate::relic::Relic;
use vstd::prelude::*;
use vstd::string::*;

verus! {

/// A saved game.
#[derive(Debug)]
pub struct GameStateSave {
    pub player: Player,
    pub cultivation: Cultivation,
    pub deck: Vec<Card>,
    pub relics: Vec<Relic>,
    pub map_nodes: Vec<MapNode>,
    pub current_map_node_id: Option<u32>,
    pub current_map_layer: u32,
}

impl GameStateSave {
    /// The name of the save file.
    pub fn get_save_path() -> (r: String)
        ensures
            r@ == "savegame.json"@,
    {
        String::from_str("savegame.json")
    }
}

/// A seeded generator of landscapes.
#[derive(Debug, Clone, Copy, PartialEq, Eq, Structural)]
pub struct LandscapeGenerator {
    pub seed: u64,
}

impl LandscapeGenerator {
    /// A generator with the given seed.
    pub fn new(seed: u64) -> (r: Self)
        ensures
            r.seed == seed,
    {
        LandscapeGenerator { seed }
    }
}

} // verus!
