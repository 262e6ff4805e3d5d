# card_battler

The rules of JiuJie: Tribulation, a cultivation-themed roguelike card battler, as a library
verified with Verus, and a small bevy program around it.

- `src/` — the verified library:
  - `cards` — cards, the draw and discard piles, the hand, the starting deck and the reward pool;
  - `combat` — the player and enemies in battle: damage, block, statuses, enemy intents;
  - `battle` — the flow of a battle: drawing, playing a card, the enemies' turn, its outcome,
    and the enemies an encounter brings;
  - `map` — the layered map, its paths, and how completing a node unlocks the next;
  - `run` — travelling the map, chance encounters, rewards, the tribulation, starting over;
  - `cultivation`, `relic`, `shop`, `dialogue`, `audio`, `states`, `save` — the rest of the
    game's data and rules;
  - `arith` — the integer arithmetic of percentage modifiers;
  - `rng` — the few random draws, through `rand`.
- `tests/` — tests of the library on concrete values.
- `app/` — the bevy program: its resources, events and systems, saving to disk, and the
  visual components (everything floating point).
