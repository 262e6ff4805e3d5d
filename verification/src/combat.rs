//! The player and enemies in battle: damage, block, healing, energy, and enemy intents.

use crate::arith::{clamp_i32, div_toward_zero, scale, scaled};
use crate::rng::random_below;
use vstd::prelude::*;
use vstd::string::*;

verus! {

/// The phase of a combat turn.
#[derive(Debug, Clone, Copy, PartialEq, Eq, Structural)]
pub enum TurnPhase {
    /// The player's turn begins.
    PlayerStart,
    /// The player plays cards.
    PlayerAction,
    /// The enemies act.
    EnemyTurn,
    /// The turn ends.
    TurnEnd,
}

impl Default for TurnPhase {
    fn default() -> (r: Self)
        ensures
            r == TurnPhase::PlayerStart,
    {
        TurnPhase::PlayerStart
    }
}

/// The combat settings.
#[derive(Debug, Clone, Copy, PartialEq, Eq, Structural)]
pub struct CombatConfig {
    /// Energy each turn.
    pub base_energy: i32,
    /// Starting hit points.
    pub initial_hp: i32,
}

impl Default for CombatConfig {
    fn default() -> (r: Self)
        ensures
            r == (CombatConfig { base_energy: 3, initial_hp: 80 }),
    {
        CombatConfig { base_energy: 3, initial_hp: 80 }
    }
}

/// Where a battle stands.
#[derive(Debug, Clone, Copy, PartialEq, Eq, Structural)]
pub struct CombatState {
    /// The phase of the turn.
    pub phase: TurnPhase,
    /// Whether cards were drawn this turn.
    pub cards_drawn_this_turn: bool,
}

impl Default for CombatState {
    fn default() -> (r: Self)
        ensures
            r == (CombatState { phase: TurnPhase::PlayerStart, cards_drawn_this_turn: false }),
    {
        CombatState { phase: TurnPhase::PlayerStart, cards_drawn_this_turn: false }
    }
}

// ============================================================================
// Environment
// ============================================================================

/// The weather of a battle. Its modifiers are percentages: 100 leaves amounts unchanged,
/// 120 adds a fifth.
#[derive(Debug)]
pub struct Environment {
    /// Name.
    pub name: String,
    /// Description.
    pub description: String,
    /// Percentage applied to outgoing damage.
    pub damage_modifier: i32,
    /// Percentage applied to block gained.
    pub block_modifier: i32,
}

impl Default for Environment {
    fn default() -> (r: Self)
        ensures
            r.name@ == "常态"@,
            r.description@ == "灵气平稳，无特殊效果。"@,
            r.damage_modifier == 100,
            r.block_modifier == 100,
    {
        Environment {
            name: String::from_str("常态"),
            description: String::from_str("灵气平稳，无特殊效果。"),
            damage_modifier: 100,
            block_modifier: 100,
        }
    }
}

impl Environment {
    /// A thunderstorm: damage is raised by a fifth.
    pub fn thunder_storm() -> (r: Self)
        ensures
            r.name@ == "雷暴"@,
            r.description@ == "雷元素充盈，伤害提升 20%"@,
            r.damage_modifier == 120,
            r.block_modifier == 100,
    {
        Environment {
            name: String::from_str("雷暴"),
            description: String::from_str("雷元素充盈，伤害提升 20%"),
            damage_modifier: 120,
            block_modifier: 100,
        }
    }

    /// Thick fog: block is raised by a fifth.
    pub fn thick_fog() -> (r: Self)
        ensures
            r.name@ == "浓雾"@,
            r.description@ == "视线受阻，防御效果提升 20%"@,
            r.damage_modifier == 100,
            r.block_modifier == 120,
    {
        Environment {
            name: String::from_str("浓雾"),
            description: String::from_str("视线受阻，防御效果提升 20%"),
            damage_modifier: 100,
            block_modifier: 120,
        }
    }
}

/// The damage percentage of an optional environment (100 when there is none).
pub open spec fn damage_percent(env: Option<&Environment>) -> int {
    match env {
        Some(e) => e.damage_modifier as int,
        None => 100,
    }
}

/// The block percentage of an optional environment (100 when there is none).
pub open spec fn block_percent(env: Option<&Environment>) -> int {
    match env {
        Some(e) => e.block_modifier as int,
        None => 100,
    }
}

// ============================================================================
// Shared rules of damage
// ============================================================================

/// Three quarters of an amount, toward zero: what a weakened fighter deals.
pub open spec fn weakened(x: int) -> int {
    div_toward_zero(3 * x, 4)
}

/// One and a half times an amount, toward zero and held within `i32`: what a vulnerable
/// fighter takes.
pub open spec fn amplified(x: int) -> int {
    clamp_i32(div_toward_zero(3 * x, 2))
}

/// The damage taken after vulnerability.
pub open spec fn incoming(vulnerable: int, amount: int) -> int {
    if vulnerable > 0 {
        amplified(amount)
    } else {
        amount
    }
}

/// What is left of a hit after block absorbs it, and the block that remains:
/// `(block after, damage left)`.
pub open spec fn absorb(block: int, damage: int) -> (int, int) {
    if block > 0 {
        if block >= damage {
            (block - damage, 0)
        } else {
            (0, damage - block)
        }
    } else {
        (block, damage)
    }
}

/// Hit points after losing `left`, never below zero.
pub open spec fn hp_after(hp: int, left: int) -> int {
    if hp - left > 0 {
        hp - left
    } else {
        0
    }
}

/// A hit of `damage` (after vulnerability) against `hp` and `block` stays within `i32`.
pub open spec fn hit_fits(hp: int, block: int, damage: int) -> bool {
    let (b, left) = absorb(block, damage);
    &&& i32::MIN <= b <= i32::MAX
    &&& i32::MIN <= hp - left <= i32::MAX
}

pub(crate) fn weaken(x: i32) -> (r: i32)
    ensures
        r == weakened(x as int),
{
    scale(x, 3, 4)
}

fn amplify(x: i32) -> (r: i32)
    ensures
        r == amplified(x as int),
{
    scale(x, 3, 2)
}

/// Applies a hit of `damage` to `hp` and `block`; returns `(hp, block)` after it.
fn absorb_hit(hp: i32, block: i32, damage: i32) -> (r: (i32, i32))
    requires
        hit_fits(hp as int, block as int, damage as int),
    ensures
        r.0 == hp_after(hp as int, absorb(block as int, damage as int).1),
        r.1 == absorb(block as int, damage as int).0,
{
    let mut remaining = damage;
    let mut block = block;
    if block > 0 {
        if block >= remaining {
            block = block - remaining;
            remaining = 0;
        } else {
            remaining = remaining - block;
            block = 0;
        }
    }
    let left = hp - remaining;
    let hp = if left > 0 { left } else { 0 };
    (hp, block)
}

// ============================================================================
// Player
// ============================================================================

/// The player's battle state.
#[derive(Debug, Clone, Copy, PartialEq, Eq, Structural)]
pub struct Player {
    pub hp: i32,
    pub max_hp: i32,
    pub energy: i32,
    pub max_energy: i32,
    pub block: i32,
    pub gold: i32,
    pub turn: u32,
    /// Sword intent, 0 to 5.
    pub sword_intent: i32,
    /// Poison stacks.
    pub poison: i32,
    /// Burn stacks.
    pub burn: i32,
    /// Weakness stacks: outgoing damage is cut to three quarters.
    pub weakness: i32,
    /// Vulnerability stacks: incoming damage is raised by half.
    pub vulnerable: i32,
}

/// The extra damage a level of sword intent gives: 2 at three or four, 5 at five.
pub open spec fn intent_bonus(sword_intent: int) -> int {
    if 3 <= sword_intent <= 4 {
        2
    } else if sword_intent == 5 {
        5
    } else {
        0
    }
}

/// The damage the player deals for a base amount.
pub open spec fn player_outgoing(p: Player, base: int, pct: int) -> int {
    let total = base + intent_bonus(p.sword_intent as int);
    let d = if p.weakness > 0 { weakened(total) } else { total };
    if pct == 100 {
        d
    } else {
        scaled(d, pct, 100)
    }
}

impl Default for Player {
    fn default() -> (r: Self)
        ensures
            r == (Player {
                hp: 80,
                max_hp: 80,
                energy: 3,
                max_energy: 3,
                block: 0,
                gold: 100,
                turn: 1,
                sword_intent: 0,
                poison: 0,
                burn: 0,
                weakness: 0,
                vulnerable: 0,
            }),
    {
        Player {
            hp: 80,
            max_hp: 80,
            energy: 3,
            max_energy: 3,
            block: 0,
            gold: 100,
            turn: 1,
            sword_intent: 0,
            poison: 0,
            burn: 0,
            weakness: 0,
            vulnerable: 0,
        }
    }
}

impl Player {
    /// Adds sword intent, capped at 5.
    pub fn add_sword_intent(&mut self, amount: i32)
        requires
            i32::MIN <= old(self).sword_intent + amount <= i32::MAX,
        ensures
            final(self).sword_intent == if old(self).sword_intent + amount < 5 {
                old(self).sword_intent + amount
            } else {
                5
            },
            *final(self) == (Player { sword_intent: final(self).sword_intent, ..*old(self) }),
    {
        let v = self.sword_intent + amount;
        self.sword_intent = if v < 5 { v } else { 5 };
    }

    /// Clears the sword intent.
    pub fn reset_sword_intent(&mut self)
        ensures
            *final(self) == (Player { sword_intent: 0, ..*old(self) }),
    {
        self.sword_intent = 0;
    }

    /// The extra damage the current sword intent gives.
    pub fn get_intent_damage_bonus(&self) -> (r: i32)
        ensures
            r == intent_bonus(self.sword_intent as int),
    {
        if 3 <= self.sword_intent && self.sword_intent <= 4 {
            2
        } else if self.sword_intent == 5 {
            5
        } else {
            0
        }
    }

    /// The damage dealt for a base amount: sword intent is added, then weakness cuts it.
    pub fn calculate_outgoing_damage(&self, base_amount: i32) -> (r: i32)
        requires
            base_amount + intent_bonus(self.sword_intent as int) <= i32::MAX,
        ensures
            r == player_outgoing(*self, base_amount as int, 100),
    {
        self.calculate_outgoing_damage_with_env(base_amount, None)
    }

    /// The damage dealt for a base amount, then scaled by the environment's damage modifier.
    pub fn calculate_outgoing_damage_with_env(
        &self,
        base_amount: i32,
        environment: Option<&Environment>,
    ) -> (r: i32)
        requires
            base_amount + intent_bonus(self.sword_intent as int) <= i32::MAX,
        ensures
            r == player_outgoing(*self, base_amount as int, damage_percent(environment)),
    {
        let total = base_amount + self.get_intent_damage_bonus();
        let damage = if self.weakness > 0 { weaken(total) } else { total };
        match environment {
            Some(env) => {
                if env.damage_modifier == 100 {
                    proof {
                        assert(scaled(damage as int, 100, 100) == damage) by (nonlinear_arith);
                    }
                }
                scale(damage, env.damage_modifier, 100)
            },
            None => damage,
        }
    }

    /// The damage taken for an amount: vulnerability raises it by half.
    pub fn calculate_incoming_damage(&self, base_amount: i32) -> (r: i32)
        ensures
            r == incoming(self.vulnerable as int, base_amount as int),
    {
        self.calculate_incoming_damage_with_env(base_amount, None)
    }

    /// The damage taken for an amount; the environment does not change it.
    pub fn calculate_incoming_damage_with_env(
        &self,
        base_amount: i32,
        _environment: Option<&Environment>,
    ) -> (r: i32)
        ensures
            r == incoming(self.vulnerable as int, base_amount as int),
    {
        if self.vulnerable > 0 {
            amplify(base_amount)
        } else {
            base_amount
        }
    }

    /// Takes a hit: block absorbs it first, the rest comes off hit points, which stop at zero.
    pub fn take_damage(&mut self, amount: i32)
        requires
            hit_fits(
                old(self).hp as int,
                old(self).block as int,
                incoming(old(self).vulnerable as int, amount as int),
            ),
        ensures
            ({
                let d = incoming(old(self).vulnerable as int, amount as int);
                let (b, left) = absorb(old(self).block as int, d);
                *final(self) == (Player {
                    hp: hp_after(old(self).hp as int, left) as i32,
                    block: b as i32,
                    ..*old(self)
                })
            }),
    {
        self.take_damage_with_env(amount, None);
    }

    /// Takes a hit in an environment (which does not change what is taken).
    pub fn take_damage_with_env(&mut self, amount: i32, environment: Option<&Environment>)
        requires
            hit_fits(
                old(self).hp as int,
                old(self).block as int,
                incoming(old(self).vulnerable as int, amount as int),
            ),
        ensures
            ({
                let d = incoming(old(self).vulnerable as int, amount as int);
                let (b, left) = absorb(old(self).block as int, d);
                *final(self) == (Player {
                    hp: hp_after(old(self).hp as int, left) as i32,
                    block: b as i32,
                    ..*old(self)
                })
            }),
    {
        let remaining = self.calculate_incoming_damage_with_env(amount, environment);
        let (hp, block) = absorb_hit(self.hp, self.block, remaining);
        self.hp = hp;
        self.block = block;
    }

    /// Heals, never above the maximum.
    pub fn heal(&mut self, amount: i32)
        requires
            i32::MIN <= old(self).hp + amount <= i32::MAX,
        ensures
            *final(self) == (Player {
                hp: if old(self).hp + amount < old(self).max_hp {
                    (old(self).hp + amount) as i32
                } else {
                    old(self).max_hp
                },
                ..*old(self)
            }),
    {
        let v = self.hp + amount;
        self.hp = if v < self.max_hp { v } else { self.max_hp };
    }

    /// Gains block.
    pub fn gain_block(&mut self, amount: i32)
        requires
            i32::MIN <= old(self).block + amount <= i32::MAX,
        ensures
            *final(self) == (Player { block: (old(self).block + amount) as i32, ..*old(self) }),
    {
        self.gain_block_with_env(amount, None);
        assert(scaled(amount as int, 100, 100) == amount) by (nonlinear_arith);
    }

    /// Gains block, scaled by the environment's block modifier.
    pub fn gain_block_with_env(&mut self, amount: i32, environment: Option<&Environment>)
        requires
            i32::MIN <= old(self).block + scaled(amount as int, block_percent(environment), 100)
                <= i32::MAX,
        ensures
            *final(self) == (Player {
                block: (old(self).block + scaled(amount as int, block_percent(environment), 100)) as i32,
                ..*old(self)
            }),
    {
        let modifier: i32 = match environment {
            Some(e) => e.block_modifier,
            None => 100,
        };
        let final_amount = scale(amount, modifier, 100);
        self.block = self.block + final_amount;
    }

    /// Clears block (at the end of a turn).
    pub fn clear_block(&mut self)
        ensures
            *final(self) == (Player { block: 0, ..*old(self) }),
    {
        self.block = 0;
    }

    /// Gains energy.
    pub fn gain_energy(&mut self, amount: i32)
        requires
            i32::MIN <= old(self).energy + amount <= i32::MAX,
        ensures
            *final(self) == (Player { energy: (old(self).energy + amount) as i32, ..*old(self) }),
    {
        self.energy = self.energy + amount;
    }

    /// Spends energy if there is enough; says whether it was spent.
    pub fn use_energy(&mut self, amount: i32) -> (r: bool)
        requires
            old(self).energy >= amount ==> old(self).energy - amount <= i32::MAX,
        ensures
            r == (old(self).energy >= amount),
            r ==> *final(self) == (Player { energy: (old(self).energy - amount) as i32, ..*old(self) }),
            !r ==> *final(self) == *old(self),
    {
        if self.energy >= amount {
            self.energy = self.energy - amount;
            true
        } else {
            false
        }
    }

    /// Starts a turn: energy is refilled and the turn counter advances.
    pub fn start_turn(&mut self)
        requires
            old(self).turn < u32::MAX,
        ensures
            *final(self) == (Player {
                energy: old(self).max_energy,
                turn: (old(self).turn + 1) as u32,
                ..*old(self)
            }),
    {
        self.energy = self.max_energy;
        self.turn = self.turn + 1;
    }
}

// ============================================================================
// Enemies
// ============================================================================

/// A trait an enemy may carry.
#[derive(Debug, Clone, Copy, PartialEq, Eq, Structural)]
pub enum EnemyAffix {
    /// Stronger in every way.
    Elite,
    /// Weaker in every way.
    Weak,
    /// Hits much harder, defends less.
    Berserk,
    /// More block.
    Tank,
    /// Quick (only a look for now).
    Swift,
    /// Its attacks burn.
    Fire,
    /// Its attacks poison.
    Poison,
    /// Its attacks weaken.
    Ice,
}

/// What an enemy means to do next.
#[derive(Debug, Clone, Copy, PartialEq, Eq, Structural)]
pub enum EnemyIntent {
    /// Attack for the damage.
    Attack { damage: i32 },
    /// Gain the block.
    Defend { block: i32 },
    /// Gain the strength.
    Buff { strength: i32 },
    /// Poison and weaken the player.
    Debuff { poison: i32, weakness: i32 },
    /// Put a curse card into the player's deck.
    Curse { card_id: u32 },
    /// Seal a slot of the player's hand for some turns.
    Seal { slot_index: usize, duration: u32 },
    /// Do nothing.
    Wait,
}

/// The kind of an enemy.
#[derive(Debug, Clone, Copy, PartialEq, Eq, Structural)]
pub enum EnemyType {
    /// A bloodthirsty wolf: attacks a lot.
    DemonicWolf,
    /// A venomous spider: poisons.
    PoisonSpider,
    /// A cursed spirit: weakens and curses.
    CursedSpirit,
    /// The great demon: a boss with a fixed sequence of moves.
    GreatDemon,
}

/// How an enemy picks its intents: either a fixed sequence it cycles through, or (when the
/// sequence is empty) a percentile roll against cumulative chances, in percent.
#[derive(Debug)]
pub struct AiPattern {
    pub attack_chance: u32,
    pub defend_chance: u32,
    pub buff_chance: u32,
    pub debuff_chance: u32,
    pub curse_chance: u32,
    pub seal_chance: u32,
    pub damage_range: (i32, i32),
    pub block_range: (i32, i32),
    pub buff_range: (i32, i32),
    /// A fixed sequence of moves; when not empty it is used in place of the chances.
    pub sequence: Vec<EnemyIntent>,
    /// The position in the sequence of the next move.
    pub current_step: usize,
}

/// The upper ends of the roll brackets, in order: attack, defend, buff, debuff, curse, seal.
pub open spec fn bracket(p: AiPattern, k: int) -> int {
    let a = p.attack_chance as int;
    let d = a + p.defend_chance as int;
    let b = d + p.buff_chance as int;
    let x = b + p.debuff_chance as int;
    let c = x + p.curse_chance as int;
    let s = c + p.seal_chance as int;
    if k == 0 { a } else if k == 1 { d } else if k == 2 { b } else if k == 3 { x } else if k == 4 { c } else { s }
}

/// The move made for `roll` by the pattern's chances, with the given sequence and position,
/// can be made without panicking or overflowing, for the given strength.
pub open spec fn ready_for(p: AiPattern, seq: Seq<EnemyIntent>, step: int, roll: int, strength: int) -> bool {
    if seq.len() > 0 {
        &&& 0 <= step < seq.len()
        &&& (seq[step] matches EnemyIntent::Attack { damage } ==> i32::MIN <= damage + strength
            <= i32::MAX)
    } else if roll < bracket(p, 0) {
        &&& p.damage_range.0 <= p.damage_range.1
        &&& i32::MIN <= p.damage_range.0 + strength
        &&& p.damage_range.1 + strength <= i32::MAX
    } else if roll < bracket(p, 1) {
        p.block_range.0 <= p.block_range.1
    } else if roll < bracket(p, 2) {
        p.buff_range.0 <= p.buff_range.1
    } else if roll < bracket(p, 5) {
        true
    } else {
        i32::MIN <= p.damage_range.0 + strength <= i32::MAX
    }
}

/// The move a pattern makes for `roll` can be made without panicking or overflowing, for
/// the given strength.
pub open spec fn roll_ready(p: AiPattern, roll: int, strength: int) -> bool {
    ready_for(p, p.sequence@, p.current_step as int, roll, strength)
}

/// Whatever percentile (0 to 99) is rolled, the pattern's move can be made.
pub open spec fn pattern_ready(p: AiPattern, strength: int) -> bool {
    forall|roll: int| 0 <= roll < 100 ==> #[trigger] roll_ready(p, roll, strength)
}

/// What the next move is, for a pattern without a sequence, a roll, and the strength:
/// `None` where the move takes a further random number (see `next_intent`).
pub open spec fn rolled_intent(p: AiPattern, roll: int, strength: int) -> Option<EnemyIntent> {
    if roll < bracket(p, 2) {
        None
    } else if roll < bracket(p, 3) {
        Some(EnemyIntent::Debuff { poison: 2, weakness: 1 })
    } else if roll < bracket(p, 4) {
        Some(EnemyIntent::Curse { card_id: 500 })
    } else if roll < bracket(p, 5) {
        None
    } else {
        Some(EnemyIntent::Attack { damage: (p.damage_range.0 + strength) as i32 })
    }
}

/// `i` is a possible next move of a pattern without a sequence, for the roll and strength.
pub open spec fn intent_fits_roll(p: AiPattern, roll: int, strength: int, i: EnemyIntent) -> bool {
    if roll < bracket(p, 0) {
        i matches EnemyIntent::Attack { damage } && p.damage_range.0 + strength <= damage
            <= p.damage_range.1 + strength
    } else if roll < bracket(p, 1) {
        i matches EnemyIntent::Defend { block } && p.block_range.0 <= block <= p.block_range.1
    } else if roll < bracket(p, 2) {
        i matches EnemyIntent::Buff { strength: s } && p.buff_range.0 <= s <= p.buff_range.1
    } else if roll < bracket(p, 4) || roll >= bracket(p, 5) {
        Some(i) == rolled_intent(p, roll, strength)
    } else {
        i matches EnemyIntent::Seal { slot_index, duration } && slot_index < 5 && duration == 2
    }
}

/// A move of a fixed sequence, with strength added to an attack.
pub open spec fn with_strength(i: EnemyIntent, strength: int) -> EnemyIntent {
    match i {
        EnemyIntent::Attack { damage } => EnemyIntent::Attack { damage: (damage + strength) as i32 },
        _ => i,
    }
}

/// The sequence of moves of the great demon.
pub open spec fn great_demon_sequence() -> Seq<EnemyIntent> {
    seq![
        EnemyIntent::Attack { damage: 15 },
        EnemyIntent::Defend { block: 12 },
        EnemyIntent::Attack { damage: 28 },
        EnemyIntent::Wait,
    ]
}

/// The sequence the great demon switches to when below half health.
pub open spec fn rage_sequence() -> Seq<EnemyIntent> {
    seq![
        EnemyIntent::Attack { damage: 35 },
        EnemyIntent::Buff { strength: 8 },
        EnemyIntent::Attack { damage: 25 },
    ]
}

/// `new` is `old` after it picked its next move from a sequence: the sequence is
/// `next_sequence(old)`, and when it has moves, the move at `next_step(old)` (an attack with
/// `old`'s strength added) is shown and the position moves on by one, wrapping around.
pub open spec fn picked_from_sequence(old: Enemy, new: Enemy) -> bool {
    let seq = next_sequence(old);
    let step = next_step(old);
    &&& new.ai_pattern.sequence@ == seq
    &&& new.strength == old.strength
    &&& new.enemy_type == old.enemy_type
    &&& new.max_hp == old.max_hp
    &&& seq.len() > 0 ==> {
        &&& new.intent == with_strength(seq[step], old.strength as int)
        &&& new.ai_pattern.current_step == (step + 1) % (seq.len() as int)
    }
}

/// The settings of a pattern, without its sequence and position.
pub open spec fn chances(
    p: AiPattern,
) -> (u32, u32, u32, u32, u32, u32, (i32, i32), (i32, i32), (i32, i32)) {
    (
        p.attack_chance,
        p.defend_chance,
        p.buff_chance,
        p.debuff_chance,
        p.curse_chance,
        p.seal_chance,
        p.damage_range,
        p.block_range,
        p.buff_range,
    )
}

/// The pattern of each kind of enemy.
pub open spec fn pattern_of(t: EnemyType) -> (
    (u32, u32, u32, u32, u32, u32, (i32, i32), (i32, i32), (i32, i32)),
    Seq<EnemyIntent>,
) {
    match t {
        EnemyType::DemonicWolf => ((70, 10, 20, 0, 0, 0, (8, 12), (3, 5), (1, 3)), seq![]),
        EnemyType::PoisonSpider => ((30, 20, 0, 30, 0, 20, (5, 8), (4, 6), (0, 0)), seq![]),
        EnemyType::CursedSpirit => ((20, 20, 0, 20, 40, 0, (10, 15), (5, 10), (0, 0)), seq![]),
        EnemyType::GreatDemon => ((50, 20, 10, 10, 5, 5, (12, 18), (6, 10), (3, 5)), great_demon_sequence()),
    }
}

impl AiPattern {
    /// A pattern is well formed when its position lies within its sequence.
    pub open spec fn wf(&self) -> bool {
        self.sequence@.len() == 0 || self.current_step < self.sequence@.len()
    }

    /// A pattern of chances (in percent) with no sequence; buffs give 1 to 3 strength.
    pub fn new_random(attack: u32, defend: u32, buff: u32, damage: (i32, i32), block: (i32, i32)) -> (r: Self)
        ensures
            chances(r) == (attack, defend, buff, 0u32, 0u32, 0u32, damage, block, (1i32, 3i32)),
            r.sequence@.len() == 0,
            r.current_step == 0,
    {
        AiPattern {
            attack_chance: attack,
            defend_chance: defend,
            buff_chance: buff,
            debuff_chance: 0,
            curse_chance: 0,
            seal_chance: 0,
            damage_range: damage,
            block_range: block,
            buff_range: (1, 3),
            sequence: Vec::new(),
            current_step: 0,
        }
    }

    /// The wolf's pattern.
    pub fn demonic_wolf() -> (r: Self)
        ensures
            (chances(r), r.sequence@) == pattern_of(EnemyType::DemonicWolf),
            r.current_step == 0,
    {
        AiPattern {
            attack_chance: 70,
            defend_chance: 10,
            buff_chance: 20,
            debuff_chance: 0,
            curse_chance: 0,
            seal_chance: 0,
            damage_range: (8, 12),
            block_range: (3, 5),
            buff_range: (1, 3),
            sequence: Vec::new(),
            current_step: 0,
        }
    }

    /// The spider's pattern.
    pub fn poison_spider() -> (r: Self)
        ensures
            (chances(r), r.sequence@) == pattern_of(EnemyType::PoisonSpider),
            r.current_step == 0,
    {
        AiPattern {
            attack_chance: 30,
            defend_chance: 20,
            buff_chance: 0,
            debuff_chance: 30,
            curse_chance: 0,
            seal_chance: 20,
            damage_range: (5, 8),
            block_range: (4, 6),
            buff_range: (0, 0),
            sequence: Vec::new(),
            current_step: 0,
        }
    }

    /// The spirit's pattern.
    pub fn cursed_spirit() -> (r: Self)
        ensures
            (chances(r), r.sequence@) == pattern_of(EnemyType::CursedSpirit),
            r.current_step == 0,
    {
        AiPattern {
            attack_chance: 20,
            defend_chance: 20,
            buff_chance: 0,
            debuff_chance: 20,
            curse_chance: 40,
            seal_chance: 0,
            damage_range: (10, 15),
            block_range: (5, 10),
            buff_range: (0, 0),
            sequence: Vec::new(),
            current_step: 0,
        }
    }

    /// The great demon's pattern: a fixed cycle of four moves.
    pub fn great_demon() -> (r: Self)
        ensures
            (chances(r), r.sequence@) == pattern_of(EnemyType::GreatDemon),
            r.current_step == 0,
    {
        let sequence = vec![
            EnemyIntent::Attack { damage: 15 },
            EnemyIntent::Defend { block: 12 },
            EnemyIntent::Attack { damage: 28 },
            EnemyIntent::Wait,
        ];
        assert(sequence@ =~= great_demon_sequence());
        AiPattern {
            attack_chance: 50,
            defend_chance: 20,
            buff_chance: 10,
            debuff_chance: 10,
            curse_chance: 5,
            seal_chance: 5,
            damage_range: (12, 18),
            block_range: (6, 10),
            buff_range: (3, 5),
            sequence,
            current_step: 0,
        }
    }

    /// The pattern of a kind of enemy.
    pub fn from_enemy_type(enemy_type: EnemyType) -> (r: Self)
        ensures
            (chances(r), r.sequence@) == pattern_of(enemy_type),
            r.current_step == 0,
    {
        match enemy_type {
            EnemyType::DemonicWolf => Self::demonic_wolf(),
            EnemyType::PoisonSpider => Self::poison_spider(),
            EnemyType::CursedSpirit => Self::cursed_spirit(),
            EnemyType::GreatDemon => Self::great_demon(),
        }
    }

    /// The next move. With a sequence: the move at the current position (strength added to
    /// an attack), and the position advances cyclically. Without one: the percentile `roll`
    /// picks a bracket of the cumulative chances; attacks, blocks, buffs and seals then draw
    /// their amount (or slot) at random from their range.
    pub fn next_intent(&mut self, roll: u64, strength: i32) -> (r: EnemyIntent)
        requires
            roll_ready(*old(self), roll as int, strength as int),
        ensures
            chances(*final(self)) == chances(*old(self)),
            final(self).sequence@ == old(self).sequence@,
            old(self).sequence@.len() > 0 ==> {
                &&& r == with_strength(old(self).sequence@[old(self).current_step as int], strength as int)
                &&& final(self).current_step == (old(self).current_step + 1) % (old(self).sequence@.len() as int)
            },
            old(self).sequence@.len() == 0 ==> {
                &&& intent_fits_roll(*old(self), roll as int, strength as int, r)
                &&& final(self).current_step == old(self).current_step
            },
    {
        if self.sequence.len() > 0 {
            let mut intent = self.sequence[self.current_step];
            if let EnemyIntent::Attack { damage } = intent {
                intent = EnemyIntent::Attack { damage: damage + strength };
            }
            self.current_step = (self.current_step + 1) % self.sequence.len();
            intent
        } else {
            let a: u64 = self.attack_chance as u64;
            let d: u64 = a + self.defend_chance as u64;
            let b: u64 = d + self.buff_chance as u64;
            let x: u64 = b + self.debuff_chance as u64;
            let c: u64 = x + self.curse_chance as u64;
            let s: u64 = c + self.seal_chance as u64;
            if roll < a {
                let base_damage = random_in(self.damage_range.0, self.damage_range.1);
                EnemyIntent::Attack { damage: base_damage + strength }
            } else if roll < d {
                let block = random_in(self.block_range.0, self.block_range.1);
                EnemyIntent::Defend { block }
            } else if roll < b {
                let strength_gain = random_in(self.buff_range.0, self.buff_range.1);
                EnemyIntent::Buff { strength: strength_gain }
            } else if roll < x {
                EnemyIntent::Debuff { poison: 2, weakness: 1 }
            } else if roll < c {
                EnemyIntent::Curse { card_id: 500 }
            } else if roll < s {
                let slot = random_below(5) as usize;
                EnemyIntent::Seal { slot_index: slot, duration: 2 }
            } else {
                EnemyIntent::Attack { damage: self.damage_range.0 + strength }
            }
        }
    }
}

/// A random number in `lo..=hi`.
fn random_in(lo: i32, hi: i32) -> (r: i32)
    requires
        lo <= hi,
    ensures
        lo <= r <= hi,
{
    let width: u64 = ((hi as i64) - (lo as i64) + 1) as u64;
    let k = random_below(width);
    ((lo as i64) + (k as i64)) as i32
}

/// An enemy has attacked the player.
#[derive(Debug, Clone, Copy, PartialEq, Eq, Structural)]
pub struct EnemyAttackEvent {
    /// The damage dealt.
    pub damage: i32,
    /// Whether the player's block was broken.
    pub block_broken: bool,
}

impl EnemyAttackEvent {
    /// Makes the event.
    pub fn new(damage: i32, block_broken: bool) -> (r: Self)
        ensures
            r == (EnemyAttackEvent { damage, block_broken }),
    {
        EnemyAttackEvent { damage, block_broken }
    }
}

/// An enemy in battle.
#[derive(Debug)]
pub struct Enemy {
    pub id: u32,
    pub name: String,
    pub enemy_type: EnemyType,
    pub hp: i32,
    pub max_hp: i32,
    /// The next move.
    pub intent: EnemyIntent,
    pub ai_pattern: AiPattern,
    /// Attack bonus.
    pub strength: i32,
    pub block: i32,
    /// Turns acted (for a boss's fixed cycle).
    pub turn_count: u32,
    pub weakness: i32,
    pub vulnerable: i32,
    pub poison: i32,
    pub affixes: Vec<EnemyAffix>,
    /// Charged: the next attack deals double damage.
    pub is_charged: bool,
}

/// Half of an amount, toward zero.
pub open spec fn half(x: int) -> int {
    div_toward_zero(x, 2)
}

/// The damage an enemy deals for a base amount.
pub open spec fn enemy_outgoing(e: Enemy, base: int, pct: int) -> int {
    let d = if e.weakness > 0 { weakened(base) } else { base };
    let d2 = if e.is_charged { 2 * d } else { d };
    if pct == 100 {
        d2
    } else {
        scaled(d2, pct, 100)
    }
}

/// The doubling of a charged enemy's damage stays within `i32`.
pub open spec fn charge_fits(e: Enemy, base: int) -> bool {
    let d = if e.weakness > 0 { weakened(base) } else { base };
    e.is_charged ==> i32::MIN <= 2 * d <= i32::MAX
}

/// The great demon switches to its rage sequence: below half health and not yet switched.
pub open spec fn enters_rage(e: Enemy) -> bool {
    e.enemy_type == EnemyType::GreatDemon && e.hp < half(e.max_hp as int)
        && e.ai_pattern.sequence@.len() != 3
}

/// The sequence an enemy picks its next move from (after a possible switch to rage).
pub open spec fn next_sequence(e: Enemy) -> Seq<EnemyIntent> {
    if enters_rage(e) {
        rage_sequence()
    } else {
        e.ai_pattern.sequence@
    }
}

/// The position in that sequence.
pub open spec fn next_step(e: Enemy) -> int {
    if enters_rage(e) {
        0
    } else {
        e.ai_pattern.current_step as int
    }
}

/// Whatever percentile is rolled, the enemy's next move can be made.
pub open spec fn intent_ready(e: Enemy) -> bool {
    forall|roll: int|
        0 <= roll < 100 ==> #[trigger] ready_for(
            e.ai_pattern,
            next_sequence(e),
            next_step(e),
            roll,
            e.strength as int,
        )
}

/// How often an affix occurs.
pub open spec fn count_of(s: Seq<EnemyAffix>, a: EnemyAffix) -> int
    decreases s.len(),
{
    if s.len() == 0 {
        0
    } else {
        count_of(s.drop_last(), a) + if s.last() == a { 1int } else { 0int }
    }
}

/// The player's status after an attack from an enemy with the given affixes: three burn per
/// fire affix, two poison per poison affix, one weakness per ice affix.
pub open spec fn after_affixes(p: Player, affixes: Seq<EnemyAffix>) -> Player {
    Player {
        burn: (p.burn + 3 * count_of(affixes, EnemyAffix::Fire)) as i32,
        poison: (p.poison + 2 * count_of(affixes, EnemyAffix::Poison)) as i32,
        weakness: (p.weakness + count_of(affixes, EnemyAffix::Ice)) as i32,
        ..p
    }
}

/// The affixes' statuses fit on the player.
pub open spec fn affixes_fit(p: Player, affixes: Seq<EnemyAffix>) -> bool {
    &&& p.burn + 3 * count_of(affixes, EnemyAffix::Fire) <= i32::MAX
    &&& p.poison + 2 * count_of(affixes, EnemyAffix::Poison) <= i32::MAX
    &&& p.weakness + count_of(affixes, EnemyAffix::Ice) <= i32::MAX
}

/// The enemy's fields other than the ones named are those of `old`.
pub open spec fn enemy_frame(e: Enemy, old: Enemy) -> bool {
    &&& e.id == old.id
    &&& e.name == old.name
    &&& e.enemy_type == old.enemy_type
    &&& e.max_hp == old.max_hp
    &&& e.turn_count == old.turn_count
    &&& e.weakness == old.weakness
    &&& e.vulnerable == old.vulnerable
    &&& e.poison == old.poison
    &&& e.affixes == old.affixes
}

impl Enemy {
    /// A fresh enemy of the given kind: full health, waiting, no block, strength or status.
    pub open spec fn is_fresh(&self, id: u32, name: Seq<char>, hp: i32, enemy_type: EnemyType) -> bool {
        &&& self.id == id
        &&& self.name@ == name
        &&& self.enemy_type == enemy_type
        &&& self.hp == hp
        &&& self.max_hp == hp
        &&& self.intent == EnemyIntent::Wait
        &&& (chances(self.ai_pattern), self.ai_pattern.sequence@) == pattern_of(enemy_type)
        &&& self.ai_pattern.current_step == 0
        &&& self.strength == 0
        &&& self.block == 0
        &&& self.turn_count == 0
        &&& self.weakness == 0
        &&& self.vulnerable == 0
        &&& self.poison == 0
        &&& self.affixes@.len() == 0
        &&& !self.is_charged
    }

    /// A new wolf.
    pub fn new(id: u32, name: &str, hp: i32) -> (r: Self)
        ensures
            r.is_fresh(id, name@, hp, EnemyType::DemonicWolf),
    {
        Self::with_type(id, name, hp, EnemyType::DemonicWolf)
    }

    /// A new enemy of the given kind.
    pub fn with_type(id: u32, name: &str, hp: i32, enemy_type: EnemyType) -> (r: Self)
        ensures
            r.is_fresh(id, name@, hp, enemy_type),
    {
        let ai_pattern = AiPattern::from_enemy_type(enemy_type);
        Enemy {
            id,
            name: String::from_str(name),
            enemy_type,
            hp,
            max_hp: hp,
            intent: EnemyIntent::Wait,
            ai_pattern,
            strength: 0,
            block: 0,
            turn_count: 0,
            weakness: 0,
            vulnerable: 0,
            poison: 0,
            affixes: Vec::new(),
            is_charged: false,
        }
    }

    /// The damage dealt for a base amount: weakness cuts it, a charge doubles it.
    pub fn calculate_outgoing_damage(&self, base_amount: i32) -> (r: i32)
        requires
            charge_fits(*self, base_amount as int),
        ensures
            r == enemy_outgoing(*self, base_amount as int, 100),
    {
        self.calculate_outgoing_damage_with_env(base_amount, None)
    }

    /// The damage dealt for a base amount, then scaled by the environment's damage modifier.
    pub fn calculate_outgoing_damage_with_env(
        &self,
        base_amount: i32,
        environment: Option<&Environment>,
    ) -> (r: i32)
        requires
            charge_fits(*self, base_amount as int),
        ensures
            r == enemy_outgoing(*self, base_amount as int, damage_percent(environment)),
    {
        let mut damage = if self.weakness > 0 { weaken(base_amount) } else { base_amount };
        if self.is_charged {
            damage = damage * 2;
        }
        match environment {
            Some(env) => {
                if env.damage_modifier == 100 {
                    proof {
                        assert(scaled(damage as int, 100, 100) == damage) by (nonlinear_arith);
                    }
                }
                scale(damage, env.damage_modifier, 100)
            },
            None => damage,
        }
    }

    /// The damage taken for an amount: vulnerability raises it by half.
    pub fn calculate_incoming_damage(&self, base_amount: i32) -> (r: i32)
        ensures
            r == incoming(self.vulnerable as int, base_amount as int),
    {
        self.calculate_incoming_damage_with_env(base_amount, None)
    }

    /// The damage taken for an amount; the environment does not change it.
    pub fn calculate_incoming_damage_with_env(
        &self,
        base_amount: i32,
        _environment: Option<&Environment>,
    ) -> (r: i32)
        ensures
            r == incoming(self.vulnerable as int, base_amount as int),
    {
        if self.vulnerable > 0 {
            amplify(base_amount)
        } else {
            base_amount
        }
    }

    /// Takes a hit: block absorbs it first, the rest comes off hit points, which stop at zero.
    pub fn take_damage(&mut self, amount: i32)
        requires
            hit_fits(
                old(self).hp as int,
                old(self).block as int,
                incoming(old(self).vulnerable as int, amount as int),
            ),
        ensures
            ({
                let d = incoming(old(self).vulnerable as int, amount as int);
                let (b, left) = absorb(old(self).block as int, d);
                &&& final(self).hp == hp_after(old(self).hp as int, left)
                &&& final(self).block == b
            }),
            enemy_frame(*final(self), *old(self)),
            final(self).intent == old(self).intent,
            final(self).ai_pattern == old(self).ai_pattern,
            final(self).strength == old(self).strength,
            final(self).is_charged == old(self).is_charged,
    {
        self.take_damage_with_env(amount, None);
    }

    /// Takes a hit in an environment (which does not change what is taken).
    pub fn take_damage_with_env(&mut self, amount: i32, environment: Option<&Environment>)
        requires
            hit_fits(
                old(self).hp as int,
                old(self).block as int,
                incoming(old(self).vulnerable as int, amount as int),
            ),
        ensures
            ({
                let d = incoming(old(self).vulnerable as int, amount as int);
                let (b, left) = absorb(old(self).block as int, d);
                &&& final(self).hp == hp_after(old(self).hp as int, left)
                &&& final(self).block == b
            }),
            enemy_frame(*final(self), *old(self)),
            final(self).intent == old(self).intent,
            final(self).ai_pattern == old(self).ai_pattern,
            final(self).strength == old(self).strength,
            final(self).is_charged == old(self).is_charged,
    {
        let remaining = self.calculate_incoming_damage_with_env(amount, environment);
        let (hp, block) = absorb_hit(self.hp, self.block, remaining);
        self.hp = hp;
        self.block = block;
    }

    /// Spends the charge, if any.
    pub fn consume_charge(&mut self)
        ensures
            !final(self).is_charged,
            enemy_frame(*final(self), *old(self)),
            final(self).hp == old(self).hp,
            final(self).block == old(self).block,
            final(self).intent == old(self).intent,
            final(self).ai_pattern == old(self).ai_pattern,
            final(self).strength == old(self).strength,
    {
        if self.is_charged {
            self.is_charged = false;
        }
    }

    /// Sets the next move.
    pub fn set_intent(&mut self, intent: EnemyIntent)
        ensures
            final(self).intent == intent,
            enemy_frame(*final(self), *old(self)),
            final(self).hp == old(self).hp,
            final(self).block == old(self).block,
            final(self).ai_pattern == old(self).ai_pattern,
            final(self).strength == old(self).strength,
            final(self).is_charged == old(self).is_charged,
    {
        self.intent = intent;
    }

    /// Whether the enemy is dead.
    pub fn is_dead(&self) -> (r: bool)
        ensures
            r == (self.hp <= 0),
    {
        self.hp <= 0
    }

    /// Picks the next move. The great demon below half health first switches, once, to its
    /// rage sequence; then a percentile is rolled and the pattern picks (see `next_intent`).
    pub fn choose_new_intent(&mut self)
        requires
            intent_ready(*old(self)),
        ensures
            ({
                let seq = next_sequence(*old(self));
                let step = next_step(*old(self));
                &&& final(self).ai_pattern.sequence@ == seq
                &&& chances(final(self).ai_pattern) == chances(old(self).ai_pattern)
                &&& seq.len() > 0 ==> {
                    &&& final(self).intent == with_strength(seq[step], old(self).strength as int)
                    &&& final(self).ai_pattern.current_step == (step + 1) % (seq.len() as int)
                }
                &&& seq.len() == 0 ==> {
                    &&& exists|roll: int|
                        0 <= roll < 100 && #[trigger] intent_fits_roll(
                            old(self).ai_pattern,
                            roll,
                            old(self).strength as int,
                            final(self).intent,
                        )
                    &&& final(self).ai_pattern.current_step == old(self).ai_pattern.current_step
                }
            }),
            enemy_frame(*final(self), *old(self)),
            final(self).hp == old(self).hp,
            final(self).block == old(self).block,
            final(self).strength == old(self).strength,
            final(self).is_charged == old(self).is_charged,
            picked_from_sequence(*old(self), *final(self)),
    {
        let half_max: i64 = if self.max_hp >= 0 {
            (self.max_hp as i64) / 2
        } else {
            -((-(self.max_hp as i64)) / 2)
        };
        if self.enemy_type == EnemyType::GreatDemon && (self.hp as i64) < half_max {
            let is_already_rage = self.ai_pattern.sequence.len() == 3;
            if !is_already_rage {
                let rage = vec![
                    EnemyIntent::Attack { damage: 35 },
                    EnemyIntent::Buff { strength: 8 },
                    EnemyIntent::Attack { damage: 25 },
                ];
                assert(rage@ =~= rage_sequence());
                self.ai_pattern.sequence = rage;
                self.ai_pattern.current_step = 0;
            }
        }
        let roll = random_below(100);
        assert(ready_for(
            old(self).ai_pattern,
            next_sequence(*old(self)),
            next_step(*old(self)),
            roll as int,
            old(self).strength as int,
        ));
        let strength = self.strength;
        let intent = self.ai_pattern.next_intent(roll, strength);
        self.intent = intent;
    }

    /// Carries out the planned move and returns it: a defence adds block (and charges the
    /// great demon), a buff adds strength; the other moves are left to the caller.
    pub fn execute_intent(&mut self) -> (r: EnemyIntent)
        requires
            old(self).intent matches EnemyIntent::Defend { block } ==> old(self).block + block
                <= i32::MAX && i32::MIN <= old(self).block + block,
            old(self).intent matches EnemyIntent::Buff { strength } ==> old(self).strength
                + strength <= i32::MAX && i32::MIN <= old(self).strength + strength,
        ensures
            r == old(self).intent,
            final(self).intent == old(self).intent,
            final(self).block == match old(self).intent {
                EnemyIntent::Defend { block } => (old(self).block + block) as i32,
                _ => old(self).block,
            },
            final(self).strength == match old(self).intent {
                EnemyIntent::Buff { strength } => (old(self).strength + strength) as i32,
                _ => old(self).strength,
            },
            final(self).is_charged == (old(self).is_charged || (old(self).intent is Defend
                && old(self).enemy_type == EnemyType::GreatDemon)),
            enemy_frame(*final(self), *old(self)),
            final(self).hp == old(self).hp,
            final(self).ai_pattern == old(self).ai_pattern,
    {
        match self.intent {
            EnemyIntent::Defend { block } => {
                self.block = self.block + block;
                if self.enemy_type == EnemyType::GreatDemon {
                    self.is_charged = true;
                }
                EnemyIntent::Defend { block }
            },
            EnemyIntent::Buff { strength } => {
                self.strength = self.strength + strength;
                EnemyIntent::Buff { strength }
            },
            other => other,
        }
    }

    /// Starts the enemy's turn: its block is cleared and it picks its next move.
    pub fn start_turn(&mut self)
        requires
            intent_ready(*old(self)),
        ensures
            ({
                let seq = next_sequence(*old(self));
                let step = next_step(*old(self));
                &&& final(self).ai_pattern.sequence@ == seq
                &&& chances(final(self).ai_pattern) == chances(old(self).ai_pattern)
                &&& seq.len() > 0 ==> {
                    &&& final(self).intent == with_strength(seq[step], old(self).strength as int)
                    &&& final(self).ai_pattern.current_step == (step + 1) % (seq.len() as int)
                }
                &&& seq.len() == 0 ==> {
                    &&& exists|roll: int|
                        0 <= roll < 100 && #[trigger] intent_fits_roll(
                            old(self).ai_pattern,
                            roll,
                            old(self).strength as int,
                            final(self).intent,
                        )
                    &&& final(self).ai_pattern.current_step == old(self).ai_pattern.current_step
                }
            }),
            final(self).block == 0,
            enemy_frame(*final(self), *old(self)),
            final(self).hp == old(self).hp,
            final(self).strength == old(self).strength,
            final(self).is_charged == old(self).is_charged,
            picked_from_sequence(*old(self), *final(self)),
    {
        self.block = 0;
        self.choose_new_intent();
    }

    /// Applies the enemy's affixes to the player it has just attacked.
    pub fn apply_attack_affixes(&self, player: &mut Player)
        requires
            affixes_fit(*old(player), self.affixes@),
        ensures
            *final(player) == after_affixes(*old(player), self.affixes@),
    {
        let mut i: usize = 0;
        proof {
            lemma_count_nonneg(self.affixes@, EnemyAffix::Fire);
            lemma_count_nonneg(self.affixes@, EnemyAffix::Poison);
            lemma_count_nonneg(self.affixes@, EnemyAffix::Ice);
        }
        while i < self.affixes.len()
            invariant
                i <= self.affixes@.len(),
                affixes_fit(*old(player), self.affixes@),
                *player == after_affixes(*old(player), self.affixes@.take(i as int)),
            decreases self.affixes@.len() - i,
        {
            proof {
                assert(self.affixes@.take(i + 1).drop_last() =~= self.affixes@.take(i as int));
                lemma_count_prefix(self.affixes@, i + 1, EnemyAffix::Fire);
                lemma_count_prefix(self.affixes@, i + 1, EnemyAffix::Poison);
                lemma_count_prefix(self.affixes@, i + 1, EnemyAffix::Ice);
                lemma_count_nonneg(self.affixes@.take(i as int), EnemyAffix::Fire);
                lemma_count_nonneg(self.affixes@.take(i as int), EnemyAffix::Poison);
                lemma_count_nonneg(self.affixes@.take(i as int), EnemyAffix::Ice);
            }
            match self.affixes[i] {
                EnemyAffix::Fire => player.burn = player.burn + 3,
                EnemyAffix::Poison => player.poison = player.poison + 2,
                EnemyAffix::Ice => player.weakness = player.weakness + 1,
                _ => {},
            }
            i = i + 1;
        }
        assert(self.affixes@.take(self.affixes@.len() as int) =~= self.affixes@);
    }
}

/// A hit of damage that is not negative never heals: block soaks it up first, only what
/// gets past the block comes off the hit points, and hit points never drop below zero.
pub proof fn law_hits_wear_down(hp: int, block: int, damage: int)
    requires
        damage >= 0,
    ensures
        ({
            let (b, left) = absorb(block, damage);
            &&& 0 <= left <= damage
            &&& block > 0 ==> b == (if block >= damage { block - damage } else { 0 })
                && left == (if block >= damage { 0 } else { damage - block })
            &&& block <= 0 ==> b == block && left == damage
            &&& 0 <= hp_after(hp, left)
            &&& hp >= 0 ==> hp_after(hp, left) <= hp
        }),
{
}

/// Weakness never raises the damage of a non-negative amount, and vulnerability never lowers
/// the damage taken from one.
pub proof fn law_statuses_cut_and_raise(x: i32)
    requires
        x >= 0,
    ensures
        0 <= weakened(x as int) <= x,
        x <= amplified(x as int) <= i32::MAX,
        forall|v: int| incoming(v, x as int) >= x,
{
    assert(0 <= (3 * x) / 4 <= x) by (nonlinear_arith)
        requires
            x >= 0,
    ;
    assert(x <= (3 * x) / 2) by (nonlinear_arith)
        requires
            x >= 0,
    ;
}

/// The position in a fixed sequence of `len` moves after `k` moves from `step`, each move
/// advancing it by one and wrapping to the start (as `next_intent` does).
pub open spec fn stepped(step: int, len: int, k: nat) -> int
    decreases k,
{
    if k == 0 {
        step
    } else {
        (stepped(step, len, (k - 1) as nat) + 1) % len
    }
}

/// The great demon, once below half its health, rages: the three moves it picks next are an
/// attack of 35, a buff of 8 strength and an attack of 25, each attack raised by its strength,
/// and then it starts the rage over with the attack of 35.
pub proof fn law_great_demon_rage(e0: Enemy, e1: Enemy, e2: Enemy, e3: Enemy, e4: Enemy)
    requires
        e0.enemy_type == EnemyType::GreatDemon,
        e0.hp < half(e0.max_hp as int),
        e0.ai_pattern.sequence@.len() != 3,
        picked_from_sequence(e0, e1),
        picked_from_sequence(e1, e2),
        picked_from_sequence(e2, e3),
        picked_from_sequence(e3, e4),
    ensures
        e1.intent == (EnemyIntent::Attack { damage: (35 + e0.strength) as i32 }),
        e2.intent == (EnemyIntent::Buff { strength: 8 }),
        e3.intent == (EnemyIntent::Attack { damage: (25 + e0.strength) as i32 }),
        e4.intent == (EnemyIntent::Attack { damage: (35 + e0.strength) as i32 }),
{
    assert(enters_rage(e0));
    assert(!enters_rage(e1));
    assert(!enters_rage(e2));
    assert(!enters_rage(e3));
}

/// A fresh great demon that keeps at least half its health cycles through its sequence: an
/// attack of 15, a defence of 12, an attack of 28 and a pause, each attack raised by its
/// strength, and then the attack of 15 again.
pub proof fn law_great_demon_sequence(
    e0: Enemy,
    e1: Enemy,
    e2: Enemy,
    e3: Enemy,
    e4: Enemy,
    e5: Enemy,
)
    requires
        e0.is_fresh(e0.id, e0.name@, e0.hp, EnemyType::GreatDemon),
        e0.hp >= half(e0.max_hp as int),
        e1.hp >= half(e1.max_hp as int),
        e2.hp >= half(e2.max_hp as int),
        e3.hp >= half(e3.max_hp as int),
        e4.hp >= half(e4.max_hp as int),
        picked_from_sequence(e0, e1),
        picked_from_sequence(e1, e2),
        picked_from_sequence(e2, e3),
        picked_from_sequence(e3, e4),
        picked_from_sequence(e4, e5),
    ensures
        e1.intent == (EnemyIntent::Attack { damage: 15 }),
        e2.intent == (EnemyIntent::Defend { block: 12 }),
        e3.intent == (EnemyIntent::Attack { damage: 28 }),
        e4.intent == EnemyIntent::Wait,
        e5.intent == (EnemyIntent::Attack { damage: 15 }),
{
    assert(!enters_rage(e0));
    assert(!enters_rage(e1));
    assert(!enters_rage(e2));
    assert(!enters_rage(e3));
    assert(!enters_rage(e4));
}

/// The chances of every kind of enemy add up to 100, so every percentile roll picks a move.
/// A wolf attacks on rolls below 70 (for 8 to 12), defends below 80 (3 to 5) and otherwise
/// grows stronger (1 to 3). A spider attacks below 30 (5 to 8), defends below 50 (4 to 6),
/// poisons below 80 and seals a slot otherwise. A cursed spirit attacks below 20 (10 to 15),
/// defends below 40 (5 to 10), poisons below 60 and curses otherwise. The great demon, when it
/// has no sequence to follow, attacks below 50 (12 to 18), defends below 70 (6 to 10), buffs
/// below 80 (3 to 5), poisons below 90, curses below 95 and seals otherwise.
pub proof fn law_enemy_chances(p: AiPattern, t: EnemyType)
    requires
        chances(p) == pattern_of(t).0,
    ensures
        bracket(p, 5) == 100,
        t == EnemyType::DemonicWolf ==> bracket(p, 0) == 70 && bracket(p, 1) == 80 && bracket(p, 2)
            == 100 && p.damage_range == (8i32, 12i32) && p.block_range == (3i32, 5i32)
            && p.buff_range == (1i32, 3i32),
        t == EnemyType::PoisonSpider ==> bracket(p, 0) == 30 && bracket(p, 1) == 50 && bracket(p, 2)
            == 50 && bracket(p, 3) == 80 && bracket(p, 4) == 80 && p.damage_range == (5i32, 8i32)
            && p.block_range == (4i32, 6i32),
        t == EnemyType::CursedSpirit ==> bracket(p, 0) == 20 && bracket(p, 1) == 40 && bracket(p, 2)
            == 40 && bracket(p, 3) == 60 && bracket(p, 4) == 100 && p.damage_range == (10i32, 15i32)
            && p.block_range == (5i32, 10i32),
        t == EnemyType::GreatDemon ==> bracket(p, 0) == 50 && bracket(p, 1) == 70 && bracket(p, 2)
            == 80 && bracket(p, 3) == 90 && bracket(p, 4) == 95 && p.damage_range == (12i32, 18i32)
            && p.block_range == (6i32, 10i32) && p.buff_range == (3i32, 5i32),
{
}

/// What a percentile roll makes an enemy without a sequence do, by the bracket it falls in:
/// an attack within the damage range raised by its strength, a defence within the block
/// range, a buff within the buff range, then poison 2 with weakness 1, then the curse card
/// 500, then a seal of one of the first five slots for two turns; a roll past every bracket
/// attacks for the low end of the damage range plus strength.
pub proof fn law_rolled_moves(p: AiPattern, roll: int, strength: int, i: EnemyIntent)
    requires
        intent_fits_roll(p, roll, strength, i),
    ensures
        roll < bracket(p, 0) ==> i is Attack && p.damage_range.0 + strength <= i->damage
            <= p.damage_range.1 + strength,
        bracket(p, 0) <= roll < bracket(p, 1) ==> i is Defend && p.block_range.0 <= i->block
            <= p.block_range.1,
        bracket(p, 1) <= roll < bracket(p, 2) ==> i is Buff && p.buff_range.0 <= i->strength
            <= p.buff_range.1,
        bracket(p, 2) <= roll < bracket(p, 3) ==> i == (EnemyIntent::Debuff { poison: 2, weakness: 1 }),
        bracket(p, 3) <= roll < bracket(p, 4) ==> i == (EnemyIntent::Curse { card_id: 500 }),
        bracket(p, 4) <= roll < bracket(p, 5) ==> i is Seal && i->slot_index < 5 && i->duration == 2,
        bracket(p, 5) <= roll && bracket(p, 0) <= roll ==> i == (EnemyIntent::Attack {
            damage: (p.damage_range.0 + strength) as i32,
        }),
{
}

/// An enemy with a fixed sequence of moves repeats it: `k` moves on from `step` it is at
/// `(step + k) % len`, and after `len` moves it is back where it started.
pub proof fn law_sequence_cycles(step: int, len: int, k: nat)
    requires
        0 <= step < len,
    ensures
        stepped(step, len, k) == (step + k) % len,
        stepped(step, len, len as nat) == step,
{
    lemma_stepped_is_mod(step, len, k);
    lemma_stepped_is_mod(step, len, len as nat);
    vstd::arithmetic::div_mod::lemma_mod_add_multiples_vanish(step, len);
    vstd::arithmetic::div_mod::lemma_small_mod(step as nat, len as nat);
}

proof fn lemma_stepped_is_mod(step: int, len: int, k: nat)
    requires
        0 <= step < len,
    ensures
        stepped(step, len, k) == (step + k) % len,
    decreases k,
{
    if k > 0 {
        lemma_stepped_is_mod(step, len, (k - 1) as nat);
        vstd::arithmetic::div_mod::lemma_add_mod_noop_right(1, step + k - 1, len);
    } else {
        vstd::arithmetic::div_mod::lemma_small_mod(step as nat, len as nat);
    }
}

proof fn lemma_count_nonneg(s: Seq<EnemyAffix>, a: EnemyAffix)
    ensures
        count_of(s, a) >= 0,
    decreases s.len(),
{
    if s.len() > 0 {
        lemma_count_nonneg(s.drop_last(), a);
    }
}

/// A prefix holds no more of an affix than the whole.
proof fn lemma_count_prefix(s: Seq<EnemyAffix>, i: int, a: EnemyAffix)
    requires
        0 <= i <= s.len(),
    ensures
        count_of(s.take(i), a) <= count_of(s, a),
    decreases s.len() - i,
{
    if i < s.len() {
        lemma_count_prefix(s, i + 1, a);
        assert(s.take(i + 1).drop_last() =~= s.take(i));
    } else {
        assert(s.take(i) =~= s);
    }
}

} // verus!
