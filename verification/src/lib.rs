//! A verified core for a card battler: cards and piles, combat arithmetic, enemy intents,
//! cultivation realms, relics, the map and its unlocking rules, and the flow of a battle.

pub mod cards;
pub mod rng;
pub mod arith;
pub mod combat;
pub mod cultivation;
pub mod dialogue;
pub mod relic;
pub mod map;
pub mod shop;
pub mod audio;
pub mod save;
pub mod states;
pub mod battle;
pub mod run;
