//! The flow of a battle: drawing and discarding, playing a card, the enemies' turn, and
//! the end of a battle.

use crate::arith::{clamp_i32, scale, scaled};
use crate::cards::{Card, CardEffect, DiscardPile, DrawPile, Hand};
use crate::combat::{
    absorb, block_percent, bracket, chances, charge_fits, damage_percent, enemy_frame,
    enemy_outgoing, enters_rage, hit_fits, hp_after, incoming, intent_bonus, intent_fits_roll,
    intent_ready, great_demon_sequence, next_sequence, next_step, pattern_of, player_outgoing,
    rage_sequence, ready_for,
    weaken, with_strength, AiPattern, CombatState, Enemy, EnemyIntent, EnemyType, Environment,
    Player, TurnPhase,
};
use crate::cultivation::Cultivation;
use crate::rng::{random_below, shuffle_in_place};
use vstd::prelude::*;
use vstd::string::*;

verus! {

// ============================================================================
// Targets
// ============================================================================

/// `i` is the first enemy still standing.
pub open spec fn is_first_alive(enemies: Seq<Enemy>, i: int) -> bool {
    &&& 0 <= i < enemies.len()
    &&& enemies[i].hp > 0
    &&& forall|j: int| 0 <= j < i ==> #[trigger] enemies[j].hp <= 0
}

/// No enemy is standing.
pub open spec fn none_alive(enemies: Seq<Enemy>) -> bool {
    forall|j: int| 0 <= j < enemies.len() ==> #[trigger] enemies[j].hp <= 0
}

/// The first enemy still standing, if any: the target of single-target cards.
pub fn first_alive(enemies: &Vec<Enemy>) -> (r: Option<usize>)
    ensures
        r matches Some(i) ==> is_first_alive(enemies@, i as int),
        r is None ==> none_alive(enemies@),
{
    let mut i: usize = 0;
    while i < enemies.len()
        invariant
            i <= enemies@.len(),
            forall|j: int| 0 <= j < i ==> #[trigger] enemies@[j].hp <= 0,
        decreases enemies@.len() - i,
    {
        if enemies[i].hp > 0 {
            return Some(i);
        }
        i = i + 1;
    }
    None
}

// ============================================================================
// Repeated hits
// ============================================================================

/// Hit points and block after `n` hits of `d` (already raised by vulnerability).
pub open spec fn after_hits(hp: int, block: int, d: int, n: int) -> (int, int)
    decreases n,
{
    if n <= 0 {
        (hp, block)
    } else {
        let (h, b) = after_hits(hp, block, d, n - 1);
        let (b2, left) = absorb(b, d);
        (hp_after(h, left), b2)
    }
}

/// Each of `n` hits of `d` stays within `i32`.
pub open spec fn hits_fit(hp: int, block: int, d: int, n: int) -> bool
    decreases n,
{
    if n <= 0 {
        true
    } else {
        let (h, b) = after_hits(hp, block, d, n - 1);
        hits_fit(hp, block, d, n - 1) && hit_fits(h, b, d)
    }
}

/// An enemy after `n` hits of `d` (before vulnerability).
pub open spec fn hit_n(e: Enemy, d: int, n: int) -> Enemy {
    let (h, b) = after_hits(e.hp as int, e.block as int, incoming(e.vulnerable as int, d), n);
    Enemy { hp: h as i32, block: b as i32, ..e }
}

/// The enemies after the first one standing takes `n` hits of `d`; unchanged when none stands.
pub open spec fn strike_first(enemies: Seq<Enemy>, d: int, n: int) -> Seq<Enemy> {
    if exists|i: int| is_first_alive(enemies, i) {
        let i = choose|i: int| is_first_alive(enemies, i);
        enemies.update(i, hit_n(enemies[i], d, n))
    } else {
        enemies
    }
}

/// The first enemy standing, if any, can take `n` hits of `d`.
pub open spec fn strike_fits(enemies: Seq<Enemy>, d: int, n: int) -> bool {
    forall|i: int|
        #[trigger] is_first_alive(enemies, i) ==> hits_fit(
            enemies[i].hp as int,
            enemies[i].block as int,
            incoming(enemies[i].vulnerable as int, d),
            n,
        )
}

proof fn lemma_hits_fit_prefix(hp: int, block: int, d: int, k: int, n: int)
    requires
        0 <= k <= n,
        hits_fit(hp, block, d, n),
    ensures
        hits_fit(hp, block, d, k),
    decreases n - k,
{
    if k < n {
        lemma_hits_fit_prefix(hp, block, d, k, n - 1);
    }
}

proof fn lemma_after_hits_range(hp: int, block: int, d: int, n: int)
    requires
        i32::MIN <= hp <= i32::MAX,
        i32::MIN <= block <= i32::MAX,
        hits_fit(hp, block, d, n),
    ensures
        i32::MIN <= after_hits(hp, block, d, n).0 <= i32::MAX,
        i32::MIN <= after_hits(hp, block, d, n).1 <= i32::MAX,
    decreases n,
{
    if n > 0 {
        lemma_after_hits_range(hp, block, d, n - 1);
    }
}

proof fn lemma_first_alive_unique(enemies: Seq<Enemy>, i: int, j: int)
    requires
        is_first_alive(enemies, i),
        is_first_alive(enemies, j),
    ensures
        i == j,
{
    if i < j {
        assert(enemies[i].hp <= 0);
    } else if j < i {
        assert(enemies[j].hp <= 0);
    }
}

/// Hits the first enemy standing `times` times with `damage` (before vulnerability).
fn strike_first_alive(enemies: &mut Vec<Enemy>, damage: i32, times: i32, environment: Option<&Environment>)
    requires
        strike_fits(old(enemies)@, damage as int, times as int),
    ensures
        final(enemies)@ == strike_first(old(enemies)@, damage as int, times as int),
{
    match first_alive(enemies) {
        None => {
            assert(!exists|i: int| is_first_alive(old(enemies)@, i));
        },
        Some(i) => {
            let ghost e0 = enemies@[i as int];
            let ghost d = incoming(e0.vulnerable as int, damage as int);
            proof {
                assert(is_first_alive(old(enemies)@, i as int));
            }
            let mut k: i32 = 0;
            while k < times
                invariant
                    0 <= k,
                    times >= 0 ==> k <= times,
                    times < 0 ==> k == 0,
                    i < enemies@.len(),
                    enemies@.len() == old(enemies)@.len(),
                    hits_fit(e0.hp as int, e0.block as int, d, times as int),
                    d == incoming(e0.vulnerable as int, damage as int),
                    enemies@ == old(enemies)@.update(i as int, hit_n(e0, damage as int, k as int)),
                    e0 == old(enemies)@[i as int],
                decreases times - k,
            {
                proof {
                    lemma_hits_fit_prefix(e0.hp as int, e0.block as int, d, k + 1, times as int);
                    lemma_hits_fit_prefix(e0.hp as int, e0.block as int, d, k as int, times as int);
                    lemma_after_hits_range(e0.hp as int, e0.block as int, d, k as int);
                    assert(enemies@[i as int] == hit_n(e0, damage as int, k as int));
                }
                let ghost before = enemies@;
                enemies[i].take_damage_with_env(damage, environment);
                proof {
                    lemma_after_hits_range(e0.hp as int, e0.block as int, d, k + 1);
                    assert(enemies@[i as int] == hit_n(e0, damage as int, k + 1));
                    assert(enemies@ =~= before.update(i as int, hit_n(e0, damage as int, k + 1)));
                    assert(enemies@ =~= old(enemies)@.update(i as int, hit_n(e0, damage as int, k + 1)));
                }
                k = k + 1;
            }
            proof {
                if times >= 0 {
                    assert(k == times);
                } else {
                    assert(k == 0);
                    assert(hit_n(e0, damage as int, times as int) == hit_n(e0, damage as int, 0));
                }
                assert(enemies@ == old(enemies)@.update(i as int, hit_n(e0, damage as int, times as int)));
                let j = choose|j: int| is_first_alive(old(enemies)@, j);
                lemma_first_alive_unique(old(enemies)@, i as int, j);
            }
        },
    }
}

// ============================================================================
// Drawing
// ============================================================================

/// How many more cards a hand of `len` cards holds.
pub open spec fn room(len: int, max_size: int) -> int {
    if max_size > len {
        max_size - len
    } else {
        0
    }
}

/// The hand after the cards `drawn` are added one by one: each goes in while there is room,
/// and the ones that find no room are lost.
pub open spec fn dealt(hand: Seq<Card>, max_size: int, drawn: Seq<Card>) -> Seq<Card> {
    let k = if room(hand.len() as int, max_size) < drawn.len() {
        room(hand.len() as int, max_size)
    } else {
        drawn.len() as int
    };
    hand + drawn.take(k)
}

/// The number of cards drawn when asking for `n` from a pile of `len`.
pub open spec fn draw_count(n: int, len: int) -> int {
    if n <= 0 {
        0
    } else if n < len {
        n
    } else {
        len
    }
}

proof fn lemma_dealt_step(hand: Seq<Card>, max_size: int, s: Seq<Card>, j: int)
    requires
        0 <= j < s.len(),
    ensures
        dealt(hand, max_size, s.take(j + 1)) == if dealt(hand, max_size, s.take(j)).len()
            < max_size {
            dealt(hand, max_size, s.take(j)).push(s[j])
        } else {
            dealt(hand, max_size, s.take(j))
        },
{
    let r = room(hand.len() as int, max_size);
    if j < r {
        assert(dealt(hand, max_size, s.take(j)) =~= hand + s.take(j));
        assert(dealt(hand, max_size, s.take(j + 1)) =~= (hand + s.take(j)).push(s[j]));
    } else {
        assert(dealt(hand, max_size, s.take(j)) =~= hand + s.take(r));
        assert(dealt(hand, max_size, s.take(j + 1)) =~= hand + s.take(r));
    }
}

/// Draws up to `n` cards from the front of the pile into the hand; a card that finds the
/// hand full is lost. Returns how many cards left the pile.
pub fn draw_up_to(draw: &mut DrawPile, hand: &mut Hand, n: i32) -> (drawn: usize)
    requires
        old(draw).wf(),
    ensures
        drawn == draw_count(n as int, old(draw).cards@.len() as int),
        final(draw).cards@ == old(draw).cards@.skip(drawn as int),
        final(draw).wf(),
        final(hand).cards@ == dealt(
            old(hand).cards@,
            old(hand).max_size as int,
            old(draw).cards@.take(drawn as int),
        ),
        final(hand).max_size == old(hand).max_size,
{
    let ghost pile = draw.cards@;
    let ghost start = hand.cards@;
    let mut t: i32 = 0;
    let mut drawn: usize = 0;
    assert(pile.take(0) =~= Seq::<Card>::empty());
    assert(dealt(start, hand.max_size as int, pile.take(0)) =~= start);
    while t < n
        invariant
            0 <= t,
            n >= 0 ==> t <= n,
            n < 0 ==> t == 0,
            drawn == draw_count(t as int, pile.len() as int),
            draw.wf(),
            draw.cards@ == pile.skip(drawn as int),
            hand.cards@ == dealt(start, hand.max_size as int, pile.take(drawn as int)),
            hand.max_size == old(hand).max_size,
            pile == old(draw).cards@,
            start == old(hand).cards@,
        decreases n - t,
    {
        let ghost before = hand.cards@;
        match draw.draw_card() {
            Some(card) => {
                proof {
                    assert(card == pile[drawn as int]);
                    lemma_dealt_step(start, hand.max_size as int, pile, drawn as int);
                    assert(pile.skip(drawn as int).drop_first() =~= pile.skip(drawn + 1));
                }
                hand.add_card(card);
                drawn = drawn + 1;
            },
            None => {},
        }
        t = t + 1;
    }
    drawn
}

// ============================================================================
// Playing a card
// ============================================================================

/// The damage an attack of `base` does, and the first enemy standing can take `n` such hits.
pub open spec fn attack_fits(p: Player, enemies: Seq<Enemy>, base: int, n: int, env: Option<&Environment>) -> bool {
    &&& base + intent_bonus(p.sword_intent as int) <= i32::MAX
    &&& strike_fits(enemies, player_outgoing(p, base, damage_percent(env)), n)
}

/// A card's effect can be applied without overflowing.
pub open spec fn effect_fits(effect: CardEffect, p: Player, enemies: Seq<Enemy>, env: Option<&Environment>) -> bool {
    match effect {
        CardEffect::DealDamage { amount } => attack_fits(p, enemies, amount as int, 1, env),
        CardEffect::AttackAndDraw { damage, cards: _ } => attack_fits(p, enemies, damage as int, 1, env),
        CardEffect::MultiAttack { damage, times } => attack_fits(p, enemies, damage as int, times as int, env),
        CardEffect::GainBlock { amount } => i32::MIN <= p.block + scaled(
            amount as int,
            block_percent(env),
            100,
        ) <= i32::MAX,
        CardEffect::Heal { amount } => i32::MIN <= p.hp + amount <= i32::MAX,
        CardEffect::GainEnergy { amount } => i32::MIN <= p.energy + amount <= i32::MAX,
        CardEffect::DrawCards { amount: _ } => true,
    }
}

/// The player after a card's effect.
pub open spec fn effect_on_player(effect: CardEffect, p: Player, env: Option<&Environment>) -> Player {
    match effect {
        CardEffect::GainBlock { amount } => Player {
            block: (p.block + scaled(amount as int, block_percent(env), 100)) as i32,
            ..p
        },
        CardEffect::Heal { amount } => Player {
            hp: if p.hp + amount < p.max_hp {
                (p.hp + amount) as i32
            } else {
                p.max_hp
            },
            ..p
        },
        CardEffect::GainEnergy { amount } => Player { energy: (p.energy + amount) as i32, ..p },
        _ => p,
    }
}

/// The enemies after a card's effect, played by `p`: attacks hit the first enemy standing.
pub open spec fn effect_on_enemies(
    effect: CardEffect,
    p: Player,
    enemies: Seq<Enemy>,
    env: Option<&Environment>,
) -> Seq<Enemy> {
    let pct = damage_percent(env);
    match effect {
        CardEffect::DealDamage { amount } => strike_first(enemies, player_outgoing(p, amount as int, pct), 1),
        CardEffect::AttackAndDraw { damage, cards: _ } => strike_first(
            enemies,
            player_outgoing(p, damage as int, pct),
            1,
        ),
        CardEffect::MultiAttack { damage, times } => strike_first(
            enemies,
            player_outgoing(p, damage as int, pct),
            times as int,
        ),
        _ => enemies,
    }
}

/// How many cards a card's effect asks to draw.
pub open spec fn effect_draws(effect: CardEffect) -> int {
    match effect {
        CardEffect::DrawCards { amount } => amount as int,
        CardEffect::AttackAndDraw { damage: _, cards } => cards as int,
        _ => 0,
    }
}

proof fn lemma_unblocked_hits(hp: int, d: int, n: int)
    requires
        hp >= 0,
        d >= 0,
        n >= 0,
    ensures
        after_hits(hp, 0, d, n) == (if hp - n * d > 0 { hp - n * d } else { 0int }, 0int),
    decreases n,
{
    if n == 0 {
        assert(n * d == 0) by (nonlinear_arith)
            requires
                n == 0,
        ;
    } else {
        lemma_unblocked_hits(hp, d, n - 1);
        let prev = after_hits(hp, 0, d, n - 1);
        assert(prev.1 == 0);
        assert(absorb(0, d) == (0int, d));
        assert(after_hits(hp, 0, d, n) == (hp_after(prev.0, d), 0int));
        assert(n * d == (n - 1) * d + d) by (nonlinear_arith);
        let m = (n - 1) * d;
        assert(prev.0 == if hp - m > 0 { hp - m } else { 0int });
        assert(hp - n * d == hp - m - d);
        assert((n - 1) * d >= 0) by (nonlinear_arith)
            requires
                n >= 1,
                d >= 0,
        ;
    }
}

/// An attack card hits the first enemy still standing and no other. Against one without
/// block or vulnerability, from a player without sword intent or weakness and with no
/// environment, a card dealing `amount` takes exactly `amount` hit points (stopping at zero),
/// a card that also draws deals the same damage, and a card striking `times` times takes
/// `amount * times`.
pub proof fn law_attack_cards_hit_first_standing(
    p: Player,
    enemies: Seq<Enemy>,
    i: int,
    amount: i32,
    times: i32,
    cards: i32,
)
    requires
        is_first_alive(enemies, i),
        enemies[i].block == 0,
        enemies[i].vulnerable <= 0,
        p.sword_intent < 3,
        p.weakness <= 0,
        amount >= 0,
        times >= 0,
    ensures
        ({
            let e = effect_on_enemies(CardEffect::DealDamage { amount }, p, enemies, None);
            let hp = enemies[i].hp - amount;
            &&& e.len() == enemies.len()
            &&& e[i].hp == if hp > 0 { hp } else { 0 }
            &&& forall|j: int| 0 <= j < enemies.len() && j != i ==> e[j] == enemies[j]
        }),
        effect_on_enemies(CardEffect::AttackAndDraw { damage: amount, cards }, p, enemies, None)
            == effect_on_enemies(CardEffect::DealDamage { amount }, p, enemies, None),
        ({
            let e = effect_on_enemies(CardEffect::MultiAttack { damage: amount, times }, p, enemies, None);
            let hp = enemies[i].hp - amount * times;
            &&& e.len() == enemies.len()
            &&& e[i].hp == if hp > 0 { hp } else { 0 }
            &&& forall|j: int| 0 <= j < enemies.len() && j != i ==> e[j] == enemies[j]
        }),
{
    assert(player_outgoing(p, amount as int, 100) == amount);
    assert forall|k: int| #[trigger] is_first_alive(enemies, k) implies k == i by {
        lemma_first_alive_unique(enemies, i, k);
    }
    lemma_unblocked_hits(enemies[i].hp as int, amount as int, 1);
    lemma_unblocked_hits(enemies[i].hp as int, amount as int, times as int);
}

/// Defensive and restoring cards change only what they name. A block card adds its amount
/// to the player's block, a fifth more under an environment that raises block by 20%
/// (rounded down); a healing card adds its amount to the hit points but never past the
/// maximum; an energy card adds its amount to the energy. Everything else stays.
pub proof fn law_self_cards(p: Player, amount: i32, env: &Environment)
    requires
        0 <= amount <= 10000,
        0 <= p.block <= 1000000,
        0 <= p.hp <= p.max_hp,
        0 <= p.energy <= 1000000,
        env.block_modifier == 120,
    ensures
        effect_on_player(CardEffect::GainBlock { amount }, p, None) == (Player {
            block: (p.block + amount) as i32,
            ..p
        }),
        effect_on_player(CardEffect::GainBlock { amount }, p, Some(env)) == (Player {
            block: (p.block + amount * 6 / 5) as i32,
            ..p
        }),
        effect_on_player(CardEffect::Heal { amount }, p, None).hp == if p.hp + amount <= p.max_hp {
            p.hp + amount
        } else {
            p.max_hp as int
        },
        effect_on_player(CardEffect::Heal { amount }, p, None) == (Player {
            hp: effect_on_player(CardEffect::Heal { amount }, p, None).hp,
            ..p
        }),
        effect_on_player(CardEffect::GainEnergy { amount }, p, None) == (Player {
            energy: (p.energy + amount) as i32,
            ..p
        }),
{
    assert(amount * 120 / 100 == amount * 6 / 5) by (nonlinear_arith)
        requires
            amount >= 0,
    ;
}

/// The damage the player's attack does: the base plus the sword intent's bonus (nothing
/// below three levels, 2 at three or four, 5 at five), cut to three quarters (rounded down)
/// when weakened, and raised by a fifth (rounded down) under an environment that raises
/// damage by 20%.
pub proof fn law_player_attack_damage(p: Player, base: int)
    requires
        0 <= base <= 1000000,
        0 <= p.sword_intent <= 5,
    ensures
        p.sword_intent < 3 && p.weakness <= 0 ==> player_outgoing(p, base, 100) == base,
        3 <= p.sword_intent <= 4 && p.weakness <= 0 ==> player_outgoing(p, base, 100) == base + 2,
        p.sword_intent == 5 && p.weakness <= 0 ==> player_outgoing(p, base, 100) == base + 5,
        p.sword_intent < 3 && p.weakness > 0 ==> player_outgoing(p, base, 100) == base * 3 / 4,
        p.sword_intent < 3 && p.weakness <= 0 ==> player_outgoing(p, base, 120) == base * 6 / 5,
        player_outgoing(p, base, 100) <= player_outgoing(p, base + 1, 100),
{
    assert(base * 120 / 100 == base * 6 / 5) by (nonlinear_arith)
        requires
            base >= 0,
    ;
    assert((3 * base) / 4 <= (3 * (base + 1)) / 4) by (nonlinear_arith)
        requires
            base >= 0,
    ;
    let t = base + intent_bonus(p.sword_intent as int);
    assert((3 * t) / 4 <= (3 * (t + 1)) / 4) by (nonlinear_arith)
        requires
            t >= 0,
    ;
}

/// A card that draws `amount` cards asks for exactly that many: it takes the first
/// `min(amount, pile size)` cards of the draw pile (none when `amount <= 0`), they join the
/// hand in order when it has room for them, and neither the player nor the enemies change.
pub proof fn law_draw_cards_draws_amount(
    amount: i32,
    p: Player,
    enemies: Seq<Enemy>,
    env: Option<&Environment>,
    pile: Seq<Card>,
    hand: Seq<Card>,
    max_size: int,
)
    ensures
        ({
            let k = draw_count(effect_draws(CardEffect::DrawCards { amount }), pile.len() as int);
            &&& amount > 0 && amount <= pile.len() ==> k == amount
            &&& amount > pile.len() ==> k == pile.len()
            &&& amount <= 0 ==> k == 0
            &&& hand.len() + k <= max_size ==> dealt(hand, max_size, pile.take(k)) == hand + pile.take(k)
            &&& hand.len() + k <= max_size ==> dealt(hand, max_size, pile.take(k)).len() == hand.len() + k
        }),
        effect_on_player(CardEffect::DrawCards { amount }, p, env) == p,
        effect_on_enemies(CardEffect::DrawCards { amount }, p, enemies, env) == enemies,
{
    let k = draw_count(effect_draws(CardEffect::DrawCards { amount }), pile.len() as int);
    assert(pile.take(k).take(k) =~= pile.take(k));
}

/// Applies a card's effect: damage goes to the first enemy standing (after the player's
/// sword intent, weakness and the environment), block is scaled by the environment, healing
/// stops at the maximum, and drawn cards go into the hand while it has room.
pub fn apply_card_effect(
    effect: CardEffect,
    player: &mut Player,
    enemies: &mut Vec<Enemy>,
    draw: &mut DrawPile,
    hand: &mut Hand,
    environment: Option<&Environment>,
)
    requires
        old(draw).wf(),
        effect_fits(effect, *old(player), old(enemies)@, environment),
    ensures
        *final(player) == effect_on_player(effect, *old(player), environment),
        final(enemies)@ == effect_on_enemies(effect, *old(player), old(enemies)@, environment),
        ({
            let k = draw_count(effect_draws(effect), old(draw).cards@.len() as int);
            &&& final(draw).cards@ == old(draw).cards@.skip(k)
            &&& final(hand).cards@ == dealt(
                old(hand).cards@,
                old(hand).max_size as int,
                old(draw).cards@.take(k),
            )
        }),
        final(draw).wf(),
        final(hand).max_size == old(hand).max_size,
{
    proof {
        assert(old(draw).cards@.skip(0) =~= old(draw).cards@);
        assert(old(hand).cards@ + old(draw).cards@.take(0) =~= old(hand).cards@);
    }
    match effect {
        CardEffect::DealDamage { amount } => {
            let d = player.calculate_outgoing_damage_with_env(amount, environment);
            strike_first_alive(enemies, d, 1, environment);
        },
        CardEffect::GainBlock { amount } => {
            player.gain_block_with_env(amount, environment);
        },
        CardEffect::Heal { amount } => {
            player.heal(amount);
        },
        CardEffect::GainEnergy { amount } => {
            player.gain_energy(amount);
        },
        CardEffect::AttackAndDraw { damage, cards } => {
            let d = player.calculate_outgoing_damage_with_env(damage, environment);
            strike_first_alive(enemies, d, 1, environment);
            draw_up_to(draw, hand, cards);
        },
        CardEffect::MultiAttack { damage, times } => {
            let d = player.calculate_outgoing_damage_with_env(damage, environment);
            strike_first_alive(enemies, d, times, environment);
        },
        CardEffect::DrawCards { amount } => {
            draw_up_to(draw, hand, amount);
        },
    }
}

/// What came of trying to play a card.
#[derive(Debug, Clone, Copy, PartialEq, Eq, Structural)]
pub enum PlayOutcome {
    /// The card was played and went to the discard pile.
    Played,
    /// No card with that id is in the hand.
    NotInHand,
    /// The player has less energy than the card costs.
    NotEnoughEnergy,
    /// The battle is already won: no card can be played while its end plays out.
    BattleWon,
}

/// `i` is the first card of the hand with the id.
pub open spec fn first_with_card_id(cards: Seq<Card>, id: u32, i: int) -> bool {
    &&& 0 <= i < cards.len()
    &&& cards[i].id == id
    &&& forall|j: int| 0 <= j < i ==> #[trigger] cards[j].id != id
}

/// Some card of the hand has the id.
pub open spec fn holds_card(cards: Seq<Card>, id: u32) -> bool {
    exists|i: int| 0 <= i < cards.len() && #[trigger] cards[i].id == id
}

/// The player after paying for a card.
pub open spec fn paid(p: Player, cost: i32) -> Player {
    Player { energy: (p.energy - cost) as i32, ..p }
}

/// Playing a card costs exactly its energy and nothing else; an energy card then gives its
/// amount back on top, so the player ends with `energy - cost + amount`.
pub proof fn law_playing_pays_cost(p: Player, cost: i32, amount: i32)
    requires
        0 <= cost <= p.energy <= 1000000,
        0 <= amount <= 1000000,
    ensures
        paid(p, cost).energy == p.energy - cost,
        paid(p, cost) == (Player { energy: paid(p, cost).energy, ..p }),
        effect_on_player(CardEffect::GainEnergy { amount }, paid(p, cost), None).energy == p.energy
            - cost + amount,
{
}

/// Playing the card at `i` can be done without overflowing, whenever the player can pay for it.
pub open spec fn play_fits(p: Player, hand: Seq<Card>, i: int, enemies: Seq<Enemy>, env: Option<&Environment>) -> bool {
    p.energy >= hand[i].cost ==> {
        &&& p.energy - hand[i].cost <= i32::MAX
        &&& effect_fits(hand[i].effect, paid(p, hand[i].cost), enemies, env)
    }
}

/// The position of the first card with the id, if any.
pub fn find_card(cards: &Vec<Card>, id: u32) -> (r: Option<usize>)
    ensures
        r matches Some(i) ==> first_with_card_id(cards@, id, i as int),
        r is None ==> !holds_card(cards@, id),
{
    let mut i: usize = 0;
    while i < cards.len()
        invariant
            i <= cards@.len(),
            forall|j: int| 0 <= j < i ==> #[trigger] cards@[j].id != id,
        decreases cards@.len() - i,
    {
        if cards[i].id == id {
            return Some(i);
        }
        i = i + 1;
    }
    None
}

proof fn lemma_first_card_unique(cards: Seq<Card>, id: u32, i: int, j: int)
    requires
        first_with_card_id(cards, id, i),
        first_with_card_id(cards, id, j),
    ensures
        i == j,
{
    if i < j {
        assert(cards[i].id != id);
    } else if j < i {
        assert(cards[j].id != id);
    }
}

/// Plays the first card of the hand with the id, unless the battle is already won (then
/// nothing happens): if the player has the energy, it is paid, the card's effect is applied,
/// and the card goes from the hand to the discard pile.
pub fn play_card(
    battle_won: bool,
    player: &mut Player,
    hand: &mut Hand,
    draw: &mut DrawPile,
    discard: &mut DiscardPile,
    enemies: &mut Vec<Enemy>,
    card_id: u32,
    environment: Option<&Environment>,
) -> (r: PlayOutcome)
    requires
        old(draw).wf(),
        old(discard).count < usize::MAX,
        !battle_won ==> forall|i: int|
            #[trigger] first_with_card_id(old(hand).cards@, card_id, i) ==> play_fits(
                *old(player),
                old(hand).cards@,
                i,
                old(enemies)@,
                environment,
            ),
    ensures
        final(hand).max_size == old(hand).max_size,
        final(draw).wf(),
        r != PlayOutcome::Played ==> {
            &&& *final(player) == *old(player)
            &&& final(hand).cards@ == old(hand).cards@
            &&& final(draw).cards@ == old(draw).cards@
            &&& final(discard).cards@ == old(discard).cards@
            &&& final(discard).count == old(discard).count
            &&& final(enemies)@ == old(enemies)@
        },
        (r == PlayOutcome::BattleWon) <==> battle_won,
        !battle_won ==> (r == PlayOutcome::NotInHand) == !holds_card(old(hand).cards@, card_id),
        !battle_won ==> forall|i: int|
            #[trigger] first_with_card_id(old(hand).cards@, card_id, i) ==> {
                let card = old(hand).cards@[i];
                let p1 = paid(*old(player), card.cost);
                let k = draw_count(effect_draws(card.effect), old(draw).cards@.len() as int);
                &&& (r == PlayOutcome::NotEnoughEnergy) == (old(player).energy < card.cost)
                &&& r == PlayOutcome::Played ==> {
                    &&& *final(player) == effect_on_player(card.effect, p1, environment)
                    &&& final(enemies)@ == effect_on_enemies(card.effect, p1, old(enemies)@, environment)
                    &&& final(draw).cards@ == old(draw).cards@.skip(k)
                    &&& final(hand).cards@ == dealt(
                        old(hand).cards@,
                        old(hand).max_size as int,
                        old(draw).cards@.take(k),
                    ).remove(i)
                    &&& final(discard).cards@ == old(discard).cards@.push(card)
                    &&& final(discard).count == old(discard).count + 1
                }
            },
{
    if battle_won {
        return PlayOutcome::BattleWon;
    }
    let i = match find_card(&hand.cards, card_id) {
        Some(i) => i,
        None => {
            return PlayOutcome::NotInHand;
        },
    };
    proof {
        assert(first_with_card_id(old(hand).cards@, card_id, i as int));
    }
    let cost = hand.cards[i].cost;
    let effect = hand.cards[i].effect;
    if player.energy < cost {
        proof {
            assert forall|j: int| #[trigger] first_with_card_id(old(hand).cards@, card_id, j) implies j == i by {
                lemma_first_card_unique(old(hand).cards@, card_id, i as int, j);
            }
        }
        return PlayOutcome::NotEnoughEnergy;
    }
    player.energy = player.energy - cost;
    let ghost mid = hand.cards@;
    apply_card_effect(effect, player, enemies, draw, hand, environment);
    proof {
        assert(hand.cards@[i as int] == mid[i as int]);
    }
    let played = hand.remove_card(i);
    match played {
        Some(card) => {
            discard.add_card(card);
        },
        None => {},
    }
    proof {
        assert forall|j: int| #[trigger] first_with_card_id(old(hand).cards@, card_id, j) implies j == i by {
            lemma_first_card_unique(old(hand).cards@, card_id, i as int, j);
        }
    }
    PlayOutcome::Played
}

// ============================================================================
// Checking a play in advance
// ============================================================================

/// A hit of `d` on `hp` and `block`, if it stays within `i32`: the hit points and block after it.
fn hit_step(hp: i32, block: i32, d: i32) -> (r: Option<(i32, i32)>)
    ensures
        r is Some <==> hit_fits(hp as int, block as int, d as int),
        r matches Some(x) ==> x.0 == hp_after(hp as int, absorb(block as int, d as int).1) && x.1
            == absorb(block as int, d as int).0,
{
    let (b, left): (i64, i64) = if block > 0 {
        if block as i64 >= d as i64 {
            (block as i64 - d as i64, 0)
        } else {
            (0, d as i64 - block as i64)
        }
    } else {
        (block as i64, d as i64)
    };
    let rest: i64 = hp as i64 - left;
    if b < i32::MIN as i64 || b > i32::MAX as i64 || rest < i32::MIN as i64 || rest > i32::MAX as i64 {
        None
    } else {
        let h: i32 = if rest > 0 {
            rest as i32
        } else {
            0
        };
        Some((h, b as i32))
    }
}

/// Whether `n` hits of `d` on `hp` and `block` all stay within `i32`.
fn hits_are_safe(hp: i32, block: i32, d: i32, n: i32) -> (r: bool)
    ensures
        r == hits_fit(hp as int, block as int, d as int, n as int),
{
    let mut h = hp;
    let mut b = block;
    let mut k: i32 = 0;
    while k < n
        invariant
            0 <= k,
            n >= 0 ==> k <= n,
            n < 0 ==> k == 0,
            hits_fit(hp as int, block as int, d as int, k as int),
            h == after_hits(hp as int, block as int, d as int, k as int).0,
            b == after_hits(hp as int, block as int, d as int, k as int).1,
        decreases n - k,
    {
        match hit_step(h, b, d) {
            None => {
                proof {
                    if hits_fit(hp as int, block as int, d as int, n as int) {
                        lemma_hits_fit_prefix(hp as int, block as int, d as int, k + 1, n as int);
                    }
                }
                return false;
            },
            Some(x) => {
                h = x.0;
                b = x.1;
            },
        }
        k = k + 1;
    }
    true
}

/// Whether an attack of `base` by the player, hitting the first enemy standing `n` times, stays
/// within `i32`.
fn attack_is_safe(p: &Player, enemies: &Vec<Enemy>, base: i32, n: i32, environment: Option<&Environment>) -> (r: bool)
    ensures
        r == attack_fits(*p, enemies@, base as int, n as int, environment),
{
    let bonus = p.get_intent_damage_bonus();
    if base as i64 + bonus as i64 > i32::MAX as i64 {
        return false;
    }
    let d = p.calculate_outgoing_damage_with_env(base, environment);
    match first_alive(enemies) {
        None => true,
        Some(i) => {
            let dd = enemies[i].calculate_incoming_damage(d);
            let r = hits_are_safe(enemies[i].hp, enemies[i].block, dd, n);
            proof {
                assert forall|j: int| #[trigger] is_first_alive(enemies@, j) implies j == i by {
                    lemma_first_alive_unique(enemies@, i as int, j);
                }
                if !r {
                    assert(is_first_alive(enemies@, i as int));
                }
            }
            r
        },
    }
}

/// Whether a card's effect can be applied without overflowing.
fn effect_is_safe(effect: CardEffect, p: &Player, enemies: &Vec<Enemy>, environment: Option<&Environment>) -> (r: bool)
    ensures
        r == effect_fits(effect, *p, enemies@, environment),
{
    match effect {
        CardEffect::DealDamage { amount } => attack_is_safe(p, enemies, amount, 1, environment),
        CardEffect::AttackAndDraw { damage, cards: _ } => attack_is_safe(p, enemies, damage, 1, environment),
        CardEffect::MultiAttack { damage, times } => attack_is_safe(p, enemies, damage, times, environment),
        CardEffect::GainBlock { amount } => {
            let pct: i32 = match environment {
                Some(e) => e.block_modifier,
                None => 100,
            };
            let s = scale(amount, pct, 100);
            let t: i64 = p.block as i64 + s as i64;
            i32::MIN as i64 <= t && t <= i32::MAX as i64
        },
        CardEffect::Heal { amount } => {
            let t: i64 = p.hp as i64 + amount as i64;
            i32::MIN as i64 <= t && t <= i32::MAX as i64
        },
        CardEffect::GainEnergy { amount } => {
            let t: i64 = p.energy as i64 + amount as i64;
            i32::MIN as i64 <= t && t <= i32::MAX as i64
        },
        CardEffect::DrawCards { amount: _ } => true,
    }
}

/// Whether playing the first card of the hand with the id stays within `i32` (what `play_card`
/// asks of its caller); true when there is no such card or the player cannot pay for it.
pub fn play_is_safe(
    player: &Player,
    hand: &Hand,
    enemies: &Vec<Enemy>,
    card_id: u32,
    environment: Option<&Environment>,
) -> (r: bool)
    ensures
        r == forall|i: int|
            #[trigger] first_with_card_id(hand.cards@, card_id, i) ==> play_fits(
                *player,
                hand.cards@,
                i,
                enemies@,
                environment,
            ),
{
    let i = match find_card(&hand.cards, card_id) {
        Some(i) => i,
        None => {
            proof {
                assert forall|j: int| #[trigger] first_with_card_id(hand.cards@, card_id, j) implies false by {
                    assert(hand.cards@[j].id == card_id);
                }
            }
            return true;
        },
    };
    proof {
        assert forall|j: int| #[trigger] first_with_card_id(hand.cards@, card_id, j) implies j == i by {
            lemma_first_card_unique(hand.cards@, card_id, i as int, j);
        }
        assert(first_with_card_id(hand.cards@, card_id, i as int));
    }
    let cost = hand.cards[i].cost;
    if player.energy < cost {
        return true;
    }
    let e: i64 = player.energy as i64 - cost as i64;
    if e > i32::MAX as i64 {
        return false;
    }
    let paid_player = Player { energy: e as i32, ..*player };
    effect_is_safe(hand.cards[i].effect, &paid_player, enemies, environment)
}

// ============================================================================
// Turns
// ============================================================================

/// Readies the player for a new battle: full energy, no block, first turn.
pub fn reset_player_for_combat(player: &mut Player)
    ensures
        *final(player) == (Player {
            energy: old(player).max_energy,
            block: 0,
            turn: 1,
            ..*old(player)
        }),
{
    player.energy = player.max_energy;
    player.block = 0;
    player.turn = 1;
}

/// The piles and state a battle starts with.
#[derive(Debug)]
pub struct BattleStart {
    pub draw: DrawPile,
    pub discard: DiscardPile,
    pub hand: Hand,
    pub state: CombatState,
}

/// Starts a battle with the deck: the player is readied (full energy, no block, first turn),
/// the deck becomes the draw pile, shuffled, the discard pile is empty, and the opening hand of
/// five cards (or all there are) is drawn into a hand that holds ten.
pub fn begin_battle(deck: &Vec<Card>, player: &mut Player) -> (b: BattleStart)
    ensures
        *final(player) == (Player {
            energy: old(player).max_energy,
            block: 0,
            turn: 1,
            ..*old(player)
        }),
        b.draw.wf(),
        b.discard.cards@.len() == 0,
        b.discard.count == 0,
        b.hand.max_size == 10,
        b.state == (CombatState { phase: TurnPhase::PlayerStart, cards_drawn_this_turn: true }),
        ({
            let k = draw_count(5, deck@.len() as int);
            exists|s: Seq<Card>|
                #[trigger] rearranged(s, deck@) && b.draw.cards@ == s.skip(k) && b.hand.cards@ == s.take(k)
        }),
{
    reset_player_for_combat(player);
    let mut cards: Vec<Card> = Vec::new();
    let mut i: usize = 0;
    while i < deck.len()
        invariant
            i <= deck@.len(),
            cards@ == deck@.take(i as int),
        decreases deck@.len() - i,
    {
        cards.push(deck[i].clone());
        proof {
            assert(deck@.take(i + 1) =~= deck@.take(i as int).push(deck@[i as int]));
        }
        i = i + 1;
    }
    proof {
        assert(deck@.take(deck@.len() as int) =~= deck@);
    }
    let mut draw = DrawPile::new(cards);
    let mut hand = Hand::new(10);
    let mut state = CombatState::default();
    draw_opening_hand(&mut draw, &mut hand, &mut state);
    proof {
        let k = draw_count(5, deck@.len() as int);
        let s = choose|s: Seq<Card>|
            #[trigger] rearranged(s, deck@) && draw.cards@ == s.skip(k) && hand.cards@ == dealt(
                Seq::<Card>::empty(),
                10,
                s.take(k),
            );
        assert(dealt(Seq::<Card>::empty(), 10, s.take(k)) =~= s.take(k));
    }
    BattleStart { draw, discard: DiscardPile::new(), hand, state }
}

/// Ends the player's turn: every card in the hand goes to the discard pile, in order, and
/// the enemies' turn begins.
pub fn end_player_turn(hand: &mut Hand, discard: &mut DiscardPile, state: &mut CombatState)
    requires
        old(discard).count + old(hand).cards@.len() <= usize::MAX,
    ensures
        final(hand).cards@.len() == 0,
        final(hand).max_size == old(hand).max_size,
        final(discard).cards@ == old(discard).cards@ + old(hand).cards@,
        final(discard).count == old(discard).count + old(hand).cards@.len(),
        *final(state) == (CombatState { phase: TurnPhase::EnemyTurn, ..*old(state) }),
{
    let ghost h0 = hand.cards@;
    let ghost d0 = discard.cards@;
    while !hand.is_empty()
        invariant
            hand.max_size == old(hand).max_size,
            discard.cards@ + hand.cards@ == d0 + h0,
            discard.cards@.len() + hand.cards@.len() == d0.len() + h0.len(),
            discard.count + hand.cards@.len() == old(discard).count + h0.len(),
            old(discard).count + h0.len() <= usize::MAX,
            h0 == old(hand).cards@,
            d0 == old(discard).cards@,
        decreases hand.cards@.len(),
    {
        let ghost before_h = hand.cards@;
        let ghost before_d = discard.cards@;
        match hand.remove_card(0) {
            Some(card) => {
                discard.add_card(card);
                proof {
                    assert(discard.cards@ + hand.cards@ =~= before_d + before_h);
                }
            },
            None => {},
        }
    }
    proof {
        assert(discard.cards@ =~= discard.cards@ + hand.cards@);
    }
    state.phase = TurnPhase::EnemyTurn;
}

/// `s` holds the same cards as `t`, in some order.
pub open spec fn rearranged(s: Seq<Card>, t: Seq<Card>) -> bool {
    s.to_multiset() == t.to_multiset() && s.len() == t.len()
}

/// Draws the opening hand, once per battle: the draw pile is shuffled and five cards (or all
/// there are) are drawn into the hand.
pub fn draw_opening_hand(draw: &mut DrawPile, hand: &mut Hand, state: &mut CombatState)
    requires
        old(draw).wf(),
    ensures
        final(draw).wf(),
        final(hand).max_size == old(hand).max_size,
        old(state).cards_drawn_this_turn ==> {
            &&& final(draw).cards@ == old(draw).cards@
            &&& final(hand).cards@ == old(hand).cards@
            &&& *final(state) == *old(state)
        },
        !old(state).cards_drawn_this_turn ==> {
            let k = draw_count(5, old(draw).cards@.len() as int);
            &&& exists|s: Seq<Card>|
                #[trigger] rearranged(s, old(draw).cards@) && final(draw).cards@ == s.skip(k)
                    && final(hand).cards@ == dealt(
                    old(hand).cards@,
                    old(hand).max_size as int,
                    s.take(k),
                )
            &&& *final(state) == (CombatState { cards_drawn_this_turn: true, ..*old(state) })
        },
{
    if state.cards_drawn_this_turn {
        return;
    }
    let ghost before = draw.cards@;
    shuffle_in_place(&mut draw.cards);
    let ghost s = draw.cards@;
    proof {
        broadcast use vstd::seq_lib::group_to_multiset_ensures;
        assert(s.to_multiset().len() == before.to_multiset().len());
        assert(rearranged(s, before));
    }
    draw_up_to(draw, hand, 5);
    state.cards_drawn_this_turn = true;
}

/// The cards a turn draws from: the draw pile, or the discard pile when the draw pile is empty.
pub open spec fn refill_source(draw: Seq<Card>, discard: Seq<Card>) -> Seq<Card> {
    if draw.len() == 0 {
        discard
    } else {
        draw
    }
}

/// Draws at the start of a turn after the first, once per turn: when the draw pile is empty
/// the discard pile is emptied and, if it held cards, they are shuffled into the draw pile;
/// then five cards (or all there are) are drawn into the hand. The turn counts as drawn only
/// if a card was drawn.
pub fn draw_turn_cards(
    draw: &mut DrawPile,
    discard: &mut DiscardPile,
    hand: &mut Hand,
    state: &mut CombatState,
    turn: u32,
)
    requires
        old(draw).wf(),
    ensures
        final(draw).wf(),
        final(hand).max_size == old(hand).max_size,
        turn <= 1 || old(state).cards_drawn_this_turn ==> {
            &&& final(draw).cards@ == old(draw).cards@
            &&& final(hand).cards@ == old(hand).cards@
            &&& final(discard).cards@ == old(discard).cards@
            &&& final(discard).count == old(discard).count
            &&& *final(state) == *old(state)
        },
        !(turn <= 1 || old(state).cards_drawn_this_turn) ==> {
            let refill = old(draw).cards@.len() == 0;
            &&& refill ==> final(discard).cards@.len() == 0 && final(discard).count == 0
            &&& !refill ==> final(discard).cards@ == old(discard).cards@ && final(discard).count
                == old(discard).count
            &&& exists|pile: Seq<Card>|
                #[trigger] rearranged(pile, refill_source(old(draw).cards@, old(discard).cards@)) && (!refill ==> pile == old(draw).cards@) && ({
                    let k = draw_count(5, pile.len() as int);
                    &&& final(draw).cards@ == pile.skip(k)
                    &&& final(hand).cards@ == dealt(
                        old(hand).cards@,
                        old(hand).max_size as int,
                        pile.take(k),
                    )
                    &&& *final(state) == (CombatState {
                        cards_drawn_this_turn: k > 0,
                        ..*old(state)
                    })
                })
        },
{
    if turn <= 1 || state.cards_drawn_this_turn {
        return;
    }
    if draw.count == 0 {
        let cards = discard.clear();
        if !cards.is_empty() {
            draw.shuffle_from_discard(cards);
            proof {
                assert(draw.cards@.subrange(0, draw.cards@.len() as int) =~= draw.cards@);
            }
        }
    }
    let ghost pile = draw.cards@;
    proof {
        if old(draw).cards@.len() == 0 {
            if old(discard).cards@.len() == 0 {
                assert(pile =~= old(discard).cards@);
            }
        }
        assert(rearranged(pile, refill_source(old(draw).cards@, old(discard).cards@)));
    }
    let drawn = draw_up_to(draw, hand, 5);
    if drawn > 0 {
        state.cards_drawn_this_turn = true;
    }
}

// ============================================================================
// The enemies' turn
// ============================================================================

/// `i` is a move the enemy can pick when its turn starts.
pub open spec fn possible_next(e: Enemy, i: EnemyIntent) -> bool {
    let seq = next_sequence(e);
    let step = next_step(e);
    if seq.len() > 0 {
        i == with_strength(seq[step], e.strength as int)
    } else {
        exists|roll: int| 0 <= roll < 100 && #[trigger] intent_fits_roll(e.ai_pattern, roll, e.strength as int, i)
    }
}

/// The enemy (with its block cleared) can carry out `i` against the player without overflowing.
pub open spec fn move_fits(e: Enemy, i: EnemyIntent, p: Player, env: Option<&Environment>) -> bool {
    match i {
        EnemyIntent::Buff { strength } => i32::MIN <= e.strength + strength <= i32::MAX,
        EnemyIntent::Attack { damage } => {
            &&& charge_fits(e, damage as int)
            &&& hit_fits(
                p.hp as int,
                p.block as int,
                incoming(p.vulnerable as int, enemy_outgoing(e, damage as int, damage_percent(env))),
            )
        },
        _ => true,
    }
}

/// The enemy after making the move it showed: last turn's block is gone, a defence gives its
/// block (and charges the great demon), a buff adds its strength.
pub open spec fn acted(e: Enemy) -> Enemy {
    Enemy {
        block: match e.intent {
            EnemyIntent::Defend { block } => block,
            _ => 0,
        },
        strength: match e.intent {
            EnemyIntent::Buff { strength } => (e.strength + strength) as i32,
            _ => e.strength,
        },
        is_charged: e.is_charged || (e.intent is Defend && e.enemy_type == EnemyType::GreatDemon),
        ..e
    }
}

/// The enemy can make the move it shows, and then pick its next one, without overflowing.
pub open spec fn act_ready(e: Enemy, p: Player, env: Option<&Environment>) -> bool {
    &&& move_fits(e, e.intent, p, env)
    &&& intent_ready(acted(e))
}

/// What an enemy did on its turn.
#[derive(Debug, Clone, Copy, PartialEq, Eq, Structural)]
pub enum EnemyAction {
    /// The enemy has fallen and does nothing.
    Fallen,
    /// The enemy made a move: the damage its attack dealt (0 for other moves) and whether
    /// the player has fallen to it.
    Acted { intent: EnemyIntent, dealt: i32, player_down: bool },
}

/// What one enemy's turn does, from the enemy `e0` and player `p0` before it to the action
/// `r` and the enemy `e` and player `p` after it.
pub open spec fn enemy_turn(
    e0: Enemy,
    p0: Player,
    env: Option<&Environment>,
    r: EnemyAction,
    e: Enemy,
    p: Player,
) -> bool {
    &&& (e0.hp <= 0 ==> r == EnemyAction::Fallen && p == p0 && e.hp == e0.hp && e.block == e0.block
        && e.intent == e0.intent && e.strength == e0.strength && e.is_charged == e0.is_charged
        && e.ai_pattern.sequence@ == e0.ai_pattern.sequence@ && e.ai_pattern.current_step
        == e0.ai_pattern.current_step)
    &&& (e0.hp > 0 ==> (r matches EnemyAction::Acted { intent, dealt, player_down } && {
        let e1 = acted(e0);
        let seq = next_sequence(e1);
        let step = next_step(e1);
        &&& intent == e0.intent
        &&& possible_next(e1, e.intent)
        &&& e.ai_pattern.sequence@ == seq
        &&& chances(e.ai_pattern) == chances(e0.ai_pattern)
        &&& e.ai_pattern.current_step == if seq.len() > 0 {
            (step + 1) % (seq.len() as int)
        } else {
            e0.ai_pattern.current_step as int
        }
        &&& e.hp == e0.hp
        &&& e.block == e1.block
        &&& e.strength == e1.strength
        &&& e.is_charged == e1.is_charged
        &&& match intent {
            EnemyIntent::Attack { damage } => {
                let d = enemy_outgoing(e0, damage as int, damage_percent(env));
                let (b, left) = absorb(p0.block as int, incoming(p0.vulnerable as int, d));
                &&& dealt == d
                &&& p == (Player {
                    hp: hp_after(p0.hp as int, left) as i32,
                    block: b as i32,
                    ..p0
                })
                &&& player_down == (p.hp <= 0)
            },
            _ => dealt == 0 && !player_down && p == p0,
        }
    }))
    &&& enemy_frame(e, e0)
}

/// On its turn a standing enemy does what it showed. An attack of `damage` from an enemy
/// that is neither weakened nor charged, with no environment, against a player who is not
/// vulnerable, is soaked up by the player's block first and then takes the rest from the
/// hit points (stopping at zero); a charged enemy hits twice as hard. A defence gives the
/// enemy that much block, a buff adds to its strength, and neither touches the player. The
/// enemy's own hit points never change on its turn, and a fallen enemy does nothing.
pub proof fn law_enemy_moves(e0: Enemy, p0: Player, r: EnemyAction, e: Enemy, p: Player)
    requires
        enemy_turn(e0, p0, None, r, e, p),
        p0.hp >= 0,
        p0.block >= 0,
        p0.vulnerable <= 0,
        e0.weakness <= 0,
        e0.intent is Buff ==> i32::MIN <= e0.strength + e0.intent->strength <= i32::MAX,
    ensures
        e.hp == e0.hp,
        e0.hp <= 0 ==> r == EnemyAction::Fallen && p == p0,
        e0.hp > 0 ==> (r matches EnemyAction::Acted { intent, .. } && intent == e0.intent),
        e0.hp > 0 && e0.intent is Attack && e0.intent->damage >= 0 && !e0.is_charged ==> {
            let damage = e0.intent->damage as int;
            let left = if damage > p0.block { damage - p0.block } else { 0 };
            &&& r matches EnemyAction::Acted { dealt, player_down, .. } && dealt == damage
                && player_down == (p.hp <= 0)
            &&& p.hp == if p0.hp - left > 0 { p0.hp - left } else { 0 }
            &&& p.block == if damage >= p0.block { 0 } else { p0.block - damage }
            &&& p.max_hp == p0.max_hp && p.energy == p0.energy && p.gold == p0.gold
        },
        e0.hp > 0 && e0.intent is Attack && e0.is_charged ==> (r matches EnemyAction::Acted {
            dealt,
            ..
        } && dealt == 2 * e0.intent->damage),
        e0.hp > 0 && e0.intent is Defend ==> e.block == e0.intent->block && p == p0,
        e0.hp > 0 && e0.intent is Buff ==> e.strength == e0.strength + e0.intent->strength && p == p0,
        e0.hp > 0 && !(e0.intent is Attack) ==> (r matches EnemyAction::Acted { dealt, player_down, .. }
            && dealt == 0 && !player_down),
{
}

/// One enemy's turn: a standing enemy's block from its last turn fades, it makes the move it
/// showed, and then it picks the move it will show next. A defence adds block, a buff adds
/// strength, and an attack hits the player (weakness, a charge and the environment apply);
/// the player is down when an attack leaves no hit points.
pub fn enemy_act(enemy: &mut Enemy, player: &mut Player, environment: Option<&Environment>) -> (r: EnemyAction)
    requires
        old(enemy).hp > 0 ==> act_ready(*old(enemy), *old(player), environment),
    ensures
        enemy_turn(*old(enemy), *old(player), environment, r, *final(enemy), *final(player)),
{
    if enemy.hp <= 0 {
        return EnemyAction::Fallen;
    }
    let ghost e0 = *enemy;
    enemy.block = 0;
    let intent = enemy.execute_intent();
    let r = match intent {
        EnemyIntent::Attack { damage } => {
            let dealt = enemy.calculate_outgoing_damage_with_env(damage, environment);
            player.take_damage_with_env(dealt, environment);
            EnemyAction::Acted { intent, dealt, player_down: player.hp <= 0 }
        },
        _ => EnemyAction::Acted { intent, dealt: 0, player_down: false },
    };
    proof {
        assert(*enemy == acted(e0));
    }
    let ghost e1 = *enemy;
    enemy.choose_new_intent();
    proof {
        let i = enemy.intent;
        if next_sequence(e1).len() == 0 {
            let roll = choose|roll: int| 0 <= roll < 100 && #[trigger] intent_fits_roll(e1.ai_pattern, roll, e1.strength as int, i);
            assert(intent_fits_roll(e1.ai_pattern, roll, e1.strength as int, i));
        }
        assert(possible_next(e1, i));
    }
    r
}

/// Hands the turn back to the player once every enemy has acted: energy is refilled, the
/// turn counter advances, and the player may draw and act again.
pub fn begin_player_turn(player: &mut Player, state: &mut CombatState)
    requires
        old(player).turn < u32::MAX,
    ensures
        *final(player) == (Player {
            energy: old(player).max_energy,
            turn: (old(player).turn + 1) as u32,
            ..*old(player)
        }),
        *final(state) == (CombatState { phase: TurnPhase::PlayerAction, cards_drawn_this_turn: false }),
{
    player.start_turn();
    state.cards_drawn_this_turn = false;
    state.phase = TurnPhase::PlayerAction;
}

/// The enemy's attack of `damage` on the player stays within `i32`.
pub open spec fn strike_ok(e: Enemy, damage: int, p: Player, env: Option<&Environment>) -> bool {
    &&& charge_fits(e, damage)
    &&& hit_fits(
        p.hp as int,
        p.block as int,
        incoming(p.vulnerable as int, enemy_outgoing(e, damage, damage_percent(env))),
    )
}

/// Whether the enemy's attack of `damage` on the player stays within `i32`.
fn strike_is_safe(e: &Enemy, damage: i32, p: &Player, environment: Option<&Environment>) -> (r: bool)
    ensures
        r == strike_ok(*e, damage as int, *p, environment),
{
    let w = if e.weakness > 0 {
        weaken(damage)
    } else {
        damage
    };
    if e.is_charged {
        let t: i64 = 2 * (w as i64);
        if t < i32::MIN as i64 || t > i32::MAX as i64 {
            return false;
        }
    }
    let dealt = e.calculate_outgoing_damage_with_env(damage, environment);
    let taken = p.calculate_incoming_damage(dealt);
    hit_step(p.hp, p.block, taken).is_some()
}

/// Whether the move a pattern without a sequence makes for `roll` can be made.
fn roll_is_ready(p: &AiPattern, roll: i64, strength: i32) -> (r: bool)
    requires
        p.sequence@.len() == 0,
    ensures
        r == ready_for(*p, p.sequence@, p.current_step as int, roll as int, strength as int),
{
    let a: i64 = p.attack_chance as i64;
    let d: i64 = a + p.defend_chance as i64;
    let b: i64 = d + p.buff_chance as i64;
    let x: i64 = b + p.debuff_chance as i64;
    let c: i64 = x + p.curse_chance as i64;
    let s: i64 = c + p.seal_chance as i64;
    let lo: i64 = p.damage_range.0 as i64 + strength as i64;
    if roll < a {
        let hi: i64 = p.damage_range.1 as i64 + strength as i64;
        p.damage_range.0 <= p.damage_range.1 && i32::MIN as i64 <= lo && hi <= i32::MAX as i64
    } else if roll < d {
        p.block_range.0 <= p.block_range.1
    } else if roll < b {
        p.buff_range.0 <= p.buff_range.1
    } else if roll < s {
        true
    } else {
        i32::MIN as i64 <= lo && lo <= i32::MAX as i64
    }
}

/// The enemy with a given strength.
pub open spec fn with_strength_of(e: Enemy, strength: i32) -> Enemy {
    Enemy { strength, ..e }
}

/// Whether the enemy, with the given strength, can pick its next move whatever is rolled.
fn next_move_ready(enemy: &Enemy, st: i32) -> (r: bool)
    ensures
        r == intent_ready(with_strength_of(*enemy, st)),
{
    let ghost x = with_strength_of(*enemy, st);
    proof {
        assert(x.strength == st && x.ai_pattern == enemy.ai_pattern && x.hp == enemy.hp);
        assert(x.max_hp == enemy.max_hp && x.enemy_type == enemy.enemy_type);
    }
    let half_max: i64 = if enemy.max_hp >= 0 {
        (enemy.max_hp as i64) / 2
    } else {
        -((-(enemy.max_hp as i64)) / 2)
    };
    let rage = enemy.enemy_type == EnemyType::GreatDemon && (enemy.hp as i64) < half_max
        && enemy.ai_pattern.sequence.len() != 3;
    proof {
        assert(rage == enters_rage(x));
    }
    if rage {
        proof {
            assert(rage_sequence()[0] == EnemyIntent::Attack { damage: 35 });
        }
        let r = 35 + st as i64 <= i32::MAX as i64;
        proof {
            if r {
                assert forall|roll: int| 0 <= roll < 100 implies #[trigger] ready_for(
                    x.ai_pattern,
                    next_sequence(x),
                    next_step(x),
                    roll,
                    st as int,
                ) by {}
                assert(intent_ready(x));
            } else {
                assert(!ready_for(x.ai_pattern, next_sequence(x), next_step(x), 0, x.strength as int));
                assert(!intent_ready(x));
            }
        }
        return r;
    }
    let len = enemy.ai_pattern.sequence.len();
    if len > 0 {
        let step = enemy.ai_pattern.current_step;
        let r = if step >= len {
            false
        } else {
            match enemy.ai_pattern.sequence[step] {
                EnemyIntent::Attack { damage } => {
                    let t: i64 = damage as i64 + st as i64;
                    i32::MIN as i64 <= t && t <= i32::MAX as i64
                },
                _ => true,
            }
        };
        proof {
            if r {
                assert forall|roll: int| 0 <= roll < 100 implies #[trigger] ready_for(
                    x.ai_pattern,
                    next_sequence(x),
                    next_step(x),
                    roll,
                    st as int,
                ) by {}
                assert(intent_ready(x));
            } else {
                assert(!ready_for(x.ai_pattern, next_sequence(x), next_step(x), 0, x.strength as int));
                assert(!intent_ready(x));
            }
        }
        return r;
    }
    let mut roll: i64 = 0;
    while roll < 100
        invariant
            0 <= roll <= 100,
            enemy.ai_pattern.sequence@.len() == 0,
            !enters_rage(x),
            x == with_strength_of(*enemy, st),
            forall|q: int|
                0 <= q < roll ==> #[trigger] ready_for(x.ai_pattern, next_sequence(x), next_step(x), q, st as int),
        decreases 100 - roll,
    {
        if !roll_is_ready(&enemy.ai_pattern, roll, st) {
            proof {
                assert(!ready_for(x.ai_pattern, next_sequence(x), next_step(x), roll as int, x.strength as int));
                assert(!intent_ready(x));
            }
            return false;
        }
        roll = roll + 1;
    }
    proof {
        assert(intent_ready(x));
    }
    true
}

/// Whether the standing enemy can make the move it shows and then pick its next one without
/// overflowing: exactly what `enemy_act` asks of its caller.
pub fn act_is_safe(enemy: &Enemy, player: &Player, environment: Option<&Environment>) -> (r: bool)
    ensures
        r == act_ready(*enemy, *player, environment),
{
    let st = enemy.strength;
    let next_strength: i32 = match enemy.intent {
        EnemyIntent::Attack { damage } => {
            if !strike_is_safe(enemy, damage, player, environment) {
                return false;
            }
            st
        },
        EnemyIntent::Buff { strength } => {
            let t: i64 = st as i64 + strength as i64;
            if t < i32::MIN as i64 || t > i32::MAX as i64 {
                return false;
            }
            t as i32
        },
        _ => st,
    };
    let r = next_move_ready(enemy, next_strength);
    proof {
        let a = acted(*enemy);
        let y = with_strength_of(*enemy, next_strength);
        assert(a.strength == y.strength);
        assert(enters_rage(a) == enters_rage(y));
        assert(next_sequence(a) == next_sequence(y));
        assert(next_step(a) == next_step(y));
        assert(intent_ready(a) == intent_ready(y));
    }
    r
}

/// Where the enemies' turn stands after one step of it.
#[derive(Debug, Clone, Copy, PartialEq, Eq, Structural)]
pub enum EnemyTurnStep {
    /// The enemy at the index had its turn (or had fallen); `next` is the index to go on with.
    Acted { action: EnemyAction, next: usize },
    /// The enemy's attack left the player without hit points: the battle is lost.
    PlayerDown { action: EnemyAction },
    /// Every enemy has acted: the turn has gone back to the player.
    TurnOver,
}

/// One step of the enemies' turn, which goes through the enemies in order: the enemy at
/// `index` takes its turn, and the turn stops if that leaves the player down; once every
/// enemy has acted, the turn goes back to the player.
pub fn enemy_turn_step(
    enemies: &mut Vec<Enemy>,
    index: usize,
    player: &mut Player,
    state: &mut CombatState,
    environment: Option<&Environment>,
) -> (r: EnemyTurnStep)
    requires
        index < old(enemies)@.len() && old(enemies)@[index as int].hp > 0 ==> act_ready(
            old(enemies)@[index as int],
            *old(player),
            environment,
        ),
        index >= old(enemies)@.len() ==> old(player).turn < u32::MAX,
    ensures
        index < old(enemies)@.len() ==> {
            let action = match r {
                EnemyTurnStep::Acted { action, next: _ } => action,
                EnemyTurnStep::PlayerDown { action } => action,
                EnemyTurnStep::TurnOver => EnemyAction::Fallen,
            };
            let down = action matches EnemyAction::Acted { intent: _, dealt: _, player_down: true };
            &&& r !is TurnOver
            &&& r is PlayerDown <==> down
            &&& r matches EnemyTurnStep::Acted { action: _, next } ==> next == index + 1
            &&& final(enemies)@.len() == old(enemies)@.len()
            &&& final(enemies)@ == old(enemies)@.update(index as int, final(enemies)@[index as int])
            &&& enemy_turn(
                old(enemies)@[index as int],
                *old(player),
                environment,
                action,
                final(enemies)@[index as int],
                *final(player),
            )
            &&& *final(state) == *old(state)
        },
        index >= old(enemies)@.len() ==> {
            &&& r == EnemyTurnStep::TurnOver
            &&& final(enemies)@ == old(enemies)@
            &&& *final(player) == (Player {
                energy: old(player).max_energy,
                turn: (old(player).turn + 1) as u32,
                ..*old(player)
            })
            &&& *final(state) == (CombatState { phase: TurnPhase::PlayerAction, cards_drawn_this_turn: false })
        },
{
    if index >= enemies.len() {
        begin_player_turn(player, state);
        return EnemyTurnStep::TurnOver;
    }
    let ghost before = enemies@;
    let action = enemy_act(&mut enemies[index], player, environment);
    proof {
        assert(enemies@ =~= before.update(index as int, enemies@[index as int]));
    }
    match action {
        EnemyAction::Acted { intent: _, dealt: _, player_down: true } => EnemyTurnStep::PlayerDown { action },
        _ => EnemyTurnStep::Acted { action, next: index + 1 },
    }
}

// ============================================================================
// The end of a battle
// ============================================================================

/// How a battle stands.
#[derive(Debug, Clone, Copy, PartialEq, Eq, Structural)]
pub enum CombatOutcome {
    /// The battle goes on.
    Ongoing,
    /// The player has fallen.
    Defeat,
    /// Every enemy has fallen.
    Victory,
}

/// How a battle stands: lost when the player has no hit points, won when there were enemies
/// and none stands, and going on otherwise.
pub open spec fn outcome_of(p: Player, enemies: Seq<Enemy>) -> CombatOutcome {
    if p.hp <= 0 {
        CombatOutcome::Defeat
    } else if enemies.len() > 0 && none_alive(enemies) {
        CombatOutcome::Victory
    } else {
        CombatOutcome::Ongoing
    }
}

/// How the battle stands.
pub fn combat_outcome(player: &Player, enemies: &Vec<Enemy>) -> (r: CombatOutcome)
    ensures
        r == outcome_of(*player, enemies@),
{
    if player.hp <= 0 {
        return CombatOutcome::Defeat;
    }
    if enemies.len() > 0 && first_alive(enemies).is_none() {
        CombatOutcome::Victory
    } else {
        CombatOutcome::Ongoing
    }
}

/// The insight a victory gives.
pub open spec fn victory_insight() -> u32 {
    50
}

/// Takes the spoils of a won battle: fifty insight, and the gold found on the field.
pub fn claim_victory_spoils(player: &mut Player, cultivation: &mut Cultivation, gold_found: i32)
    requires
        old(cultivation).insight + victory_insight() <= u32::MAX,
        i32::MIN <= old(player).gold + gold_found <= i32::MAX,
    ensures
        *final(cultivation) == (Cultivation {
            insight: (old(cultivation).insight + victory_insight()) as u32,
            ..*old(cultivation)
        }),
        *final(player) == (Player { gold: (old(player).gold + gold_found) as i32, ..*old(player) }),
{
    cultivation.gain_insight(50);
    player.gold = player.gold + gold_found;
}

/// Takes the spoils of a won battle, with 10 to 25 gold found at random; returns the gold found.
pub fn grant_victory_rewards(player: &mut Player, cultivation: &mut Cultivation) -> (gold_found: i32)
    requires
        old(cultivation).insight + victory_insight() <= u32::MAX,
        old(player).gold + 25 <= i32::MAX,
    ensures
        10 <= gold_found <= 25,
        *final(cultivation) == (Cultivation {
            insight: (old(cultivation).insight + victory_insight()) as u32,
            ..*old(cultivation)
        }),
        *final(player) == (Player { gold: (old(player).gold + gold_found) as i32, ..*old(player) }),
{
    let gold_found = 10 + random_below(16) as i32;
    claim_victory_spoils(player, cultivation, gold_found);
    gold_found
}

/// What settling a battle does: from the player `p0`, cultivation `c0` and the flag
/// `won0` (the battle already won, its spoils taken) before it, against the enemies, to the
/// outcome and the gold found `r`, and the player, cultivation and flag after it.
pub open spec fn settled(
    p0: Player,
    c0: Cultivation,
    won0: bool,
    enemies: Seq<Enemy>,
    r: (CombatOutcome, Option<i32>),
    p: Player,
    c: Cultivation,
    won: bool,
) -> bool {
    let grants = r.0 == CombatOutcome::Victory && !won0;
    &&& r.0 == outcome_of(p0, enemies)
    &&& grants ==> (r.1 matches Some(g) && 10 <= g <= 25 && c == (Cultivation {
        insight: (c0.insight + victory_insight()) as u32,
        ..c0
    }) && p == (Player { gold: (p0.gold + g) as i32, ..p0 }) && won)
    &&& !grants ==> r.1 is None && p == p0 && c == c0 && won == won0
}

/// Settles a battle: says how it stands, and the first time it is found won, takes its spoils
/// (fifty insight, 10 to 25 gold found at random) and marks it won, so that the spoils are taken
/// only once. Returns the outcome and the gold found, if the spoils were taken now.
pub fn settle_battle(
    player: &mut Player,
    cultivation: &mut Cultivation,
    enemies: &Vec<Enemy>,
    battle_won: &mut bool,
) -> (r: (CombatOutcome, Option<i32>))
    requires
        outcome_of(*old(player), enemies@) == CombatOutcome::Victory && !*old(battle_won) ==> {
            &&& old(cultivation).insight + victory_insight() <= u32::MAX
            &&& old(player).gold + 25 <= i32::MAX
        },
    ensures
        settled(
            *old(player),
            *old(cultivation),
            *old(battle_won),
            enemies@,
            r,
            *final(player),
            *final(cultivation),
            *final(battle_won),
        ),
{
    let outcome = combat_outcome(player, enemies);
    if outcome == CombatOutcome::Victory && !*battle_won {
        let gold = grant_victory_rewards(player, cultivation);
        *battle_won = true;
        (outcome, Some(gold))
    } else {
        (outcome, None)
    }
}

/// Settling a battle the first time it is won, with the player standing, grants exactly 50
/// insight and between 10 and 25 gold, and nothing else; a battle still going on or lost
/// grants nothing.
pub proof fn law_battle_spoils(
    p0: Player,
    c0: Cultivation,
    enemies: Seq<Enemy>,
    r: (CombatOutcome, Option<i32>),
    p: Player,
    c: Cultivation,
    won: bool,
)
    requires
        settled(p0, c0, false, enemies, r, p, c, won),
        c0.insight + 50 <= u32::MAX,
        p0.gold + 25 <= i32::MAX,
        p0.gold >= 0,
    ensures
        p0.hp > 0 && enemies.len() > 0 && none_alive(enemies) ==> {
            &&& r.0 == CombatOutcome::Victory && won
            &&& c.insight == c0.insight + 50 && c.realm == c0.realm
            &&& p0.gold + 10 <= p.gold <= p0.gold + 25
            &&& p == (Player { gold: p.gold, ..p0 })
            &&& r.1 == Some((p.gold - p0.gold) as i32)
        },
        p0.hp <= 0 ==> r.0 == CombatOutcome::Defeat && p == p0 && c == c0 && !won,
        p0.hp > 0 && !(enemies.len() > 0 && none_alive(enemies)) ==> r.0 == CombatOutcome::Ongoing
            && p == p0 && c == c0 && !won,
{
}

/// The spoils of a battle are taken once: settling it again right after, against the same
/// enemies, takes nothing more and changes nothing.
pub proof fn law_spoils_taken_once(
    p0: Player,
    c0: Cultivation,
    won0: bool,
    enemies: Seq<Enemy>,
    r1: (CombatOutcome, Option<i32>),
    p1: Player,
    c1: Cultivation,
    won1: bool,
    r2: (CombatOutcome, Option<i32>),
    p2: Player,
    c2: Cultivation,
    won2: bool,
)
    requires
        settled(p0, c0, won0, enemies, r1, p1, c1, won1),
        settled(p1, c1, won1, enemies, r2, p2, c2, won2),
    ensures
        r2.1 is None,
        p2 == p1,
        c2 == c1,
        won2 == won1,
{
}

// ============================================================================
// Encounters
// ============================================================================

/// The name of each kind of enemy as it appears in an encounter.
pub open spec fn kind_name(t: EnemyType) -> Seq<char> {
    match t {
        EnemyType::DemonicWolf => "嗜血妖狼"@,
        EnemyType::PoisonSpider => "剧毒蛛"@,
        EnemyType::CursedSpirit => "怨灵"@,
        EnemyType::GreatDemon => "幽冥白虎"@,
    }
}

/// The hit points of each kind of enemy on the first layer.
pub open spec fn kind_base_hp(t: EnemyType) -> int {
    match t {
        EnemyType::DemonicWolf => 30,
        EnemyType::PoisonSpider => 20,
        EnemyType::CursedSpirit => 40,
        EnemyType::GreatDemon => 150,
    }
}

/// Hit points grow by fifteen percent of the base per layer, rounded down.
pub open spec fn layer_hp(base: int, layer: int) -> int {
    clamp_i32(base * (100 + 15 * layer) / 100)
}

/// A pattern's settings on a layer: attacks gain a third of the layer (five more at the
/// boss), blocks gain half of it.
pub open spec fn layer_chances(
    c: (u32, u32, u32, u32, u32, u32, (i32, i32), (i32, i32), (i32, i32)),
    layer: int,
    boss: bool,
) -> (u32, u32, u32, u32, u32, u32, (i32, i32), (i32, i32), (i32, i32)) {
    let extra = layer / 3 + if boss { 5int } else { 0int };
    (
        c.0,
        c.1,
        c.2,
        c.3,
        c.4,
        c.5,
        ((c.6.0 + extra) as i32, (c.6.1 + extra) as i32),
        ((c.7.0 + layer / 2) as i32, (c.7.1 + layer / 2) as i32),
        c.8,
    )
}

/// `e` has the fixed fields of the enemy of kind `t` an encounter on `layer` brings, as
/// number `id`: all but the move it shows and its place in its sequence.
pub open spec fn encounter_base(e: Enemy, id: u32, t: EnemyType, layer: int, boss: bool) -> bool {
    &&& e.id == id
    &&& e.name@ == kind_name(t)
    &&& e.enemy_type == t
    &&& e.hp == layer_hp(kind_base_hp(t), layer)
    &&& e.max_hp == e.hp
    &&& chances(e.ai_pattern) == layer_chances(pattern_of(t).0, layer, boss)
    &&& e.ai_pattern.sequence@ == pattern_of(t).1
    &&& e.strength == layer / 3 + if boss { 2int } else { 0int }
    &&& e.block == (layer / 2) * 2 + if boss { 5int } else { 0int }
    &&& e.turn_count == 0
    &&& e.weakness == 0
    &&& e.vulnerable == 0
    &&& e.poison == 0
    &&& e.affixes@.len() == 0
    &&& !e.is_charged
}

/// `e` is the enemy of kind `t` an encounter on `layer` brings, as number `id`, before it has
/// picked a move: it waits, at the start of its sequence.
pub open spec fn encounter_enemy(e: Enemy, id: u32, t: EnemyType, layer: int, boss: bool) -> bool {
    &&& encounter_base(e, id, t, layer, boss)
    &&& e.intent == EnemyIntent::Wait
    &&& e.ai_pattern.current_step == 0
}

/// `e` is that enemy once it has picked the first move it shows: the first of its fixed
/// sequence (strength added to an attack), or a move some percentile roll gives.
pub open spec fn encounter_ready(e: Enemy, id: u32, t: EnemyType, layer: int, boss: bool) -> bool {
    let seq = pattern_of(t).1;
    &&& encounter_base(e, id, t, layer, boss)
    &&& seq.len() > 0 ==> {
        &&& e.intent == with_strength(seq[0], e.strength as int)
        &&& e.ai_pattern.current_step == 1int % (seq.len() as int)
    }
    &&& seq.len() == 0 ==> {
        &&& e.ai_pattern.current_step == 0
        &&& exists|roll: int| 0 <= roll < 100 && #[trigger] intent_fits_roll(e.ai_pattern, roll, e.strength as int, e.intent)
    }
}

/// The starting block of enemies on a layer fits.
pub open spec fn layer_fits(layer: int, boss: bool) -> bool {
    (layer / 2) * 2 + (if boss { 5int } else { 0int }) <= i32::MAX
}

/// How an encounter's enemies grow with the layer. On the first layer a wolf has 30 hit
/// points, a spider 20, a cursed spirit 40 and the great demon 150; each layer adds fifteen
/// percent of that (rounded down), so a deeper layer never brings a weaker enemy. Every three
/// layers add one strength and one to the attack range, every two layers add two block and
/// one to the block range; the boss gets 2 more strength, 5 more block and 5 more damage.
pub proof fn law_encounter_scaling(e: Enemy, id: u32, t: EnemyType, layer: int, boss: bool, deeper: int)
    requires
        encounter_base(e, id, t, layer, boss),
        0 <= layer <= deeper <= 1000,
    ensures
        layer == 0 ==> e.hp == kind_base_hp(t),
        t == EnemyType::DemonicWolf ==> kind_base_hp(t) == 30,
        t == EnemyType::PoisonSpider ==> kind_base_hp(t) == 20,
        t == EnemyType::CursedSpirit ==> kind_base_hp(t) == 40,
        t == EnemyType::GreatDemon ==> kind_base_hp(t) == 150,
        e.hp == kind_base_hp(t) + kind_base_hp(t) * 15 * layer / 100,
        e.hp <= layer_hp(kind_base_hp(t), deeper),
        e.max_hp == e.hp,
        e.strength == layer / 3 + if boss { 2int } else { 0int },
        e.block == 2 * (layer / 2) + if boss { 5int } else { 0int },
        e.ai_pattern.damage_range.0 == pattern_of(t).0.6.0 + layer / 3 + if boss { 5int } else { 0int },
        e.ai_pattern.damage_range.1 == pattern_of(t).0.6.1 + layer / 3 + if boss { 5int } else { 0int },
        e.ai_pattern.block_range.0 == pattern_of(t).0.7.0 + layer / 2,
        e.ai_pattern.sequence@ == pattern_of(t).1,
{
    let b = kind_base_hp(t);
    assert(b * (100 + 15 * layer) == 100 * b + b * 15 * layer) by (nonlinear_arith);
    assert((100 * b + b * 15 * layer) / 100 == b + b * 15 * layer / 100) by (nonlinear_arith)
        requires
            b >= 0,
            layer >= 0,
    ;
    assert(b * (100 + 15 * layer) <= b * (100 + 15 * deeper)) by (nonlinear_arith)
        requires
            0 <= b,
            layer <= deeper,
    ;
    assert(b * (100 + 15 * layer) / 100 <= b * (100 + 15 * deeper) / 100) by (nonlinear_arith)
        requires
            b * (100 + 15 * layer) <= b * (100 + 15 * deeper),
    ;
    assert(b * (100 + 15 * deeper) / 100 <= 150 * 15100 / 100) by (nonlinear_arith)
        requires
            0 <= b <= 150,
            0 <= deeper <= 1000,
    ;
}

/// Makes the enemy of a kind for an encounter on a layer (a boss encounter makes it stronger).
pub fn make_enemy(id: u32, enemy_type: EnemyType, layer: u32, is_boss: bool) -> (r: Enemy)
    requires
        layer_fits(layer as int, is_boss),
    ensures
        encounter_enemy(r, id, enemy_type, layer as int, is_boss),
{
    let (name, base_hp): (&str, i64) = match enemy_type {
        EnemyType::DemonicWolf => ("嗜血妖狼", 30),
        EnemyType::PoisonSpider => ("剧毒蛛", 20),
        EnemyType::CursedSpirit => ("怨灵", 40),
        EnemyType::GreatDemon => ("幽冥白虎", 150),
    };
    proof {
        reveal_strlit("嗜血妖狼");
        reveal_strlit("剧毒蛛");
        reveal_strlit("怨灵");
        reveal_strlit("幽冥白虎");
    }
    let raw: i64 = base_hp * (100 + 15 * (layer as i64)) / 100;
    let hp: i32 = if raw > i32::MAX as i64 {
        i32::MAX
    } else {
        raw as i32
    };
    let mut enemy = Enemy::with_type(id, name, hp, enemy_type);
    let extra_strength: i32 = (layer / 3) as i32;
    let half_layer: i32 = (layer / 2) as i32;
    enemy.strength = extra_strength;
    enemy.block = half_layer * 2;
    enemy.ai_pattern.damage_range.0 = enemy.ai_pattern.damage_range.0 + extra_strength;
    enemy.ai_pattern.damage_range.1 = enemy.ai_pattern.damage_range.1 + extra_strength;
    enemy.ai_pattern.block_range.0 = enemy.ai_pattern.block_range.0 + half_layer;
    enemy.ai_pattern.block_range.1 = enemy.ai_pattern.block_range.1 + half_layer;
    if is_boss {
        enemy.strength = enemy.strength + 2;
        enemy.block = enemy.block + 5;
        enemy.ai_pattern.damage_range.0 = enemy.ai_pattern.damage_range.0 + 5;
        enemy.ai_pattern.damage_range.1 = enemy.ai_pattern.damage_range.1 + 5;
    }
    enemy
}

proof fn lemma_fresh_ready(e: Enemy, id: u32, t: EnemyType, layer: int, boss: bool)
    requires
        encounter_enemy(e, id, t, layer, boss),
        0 <= layer,
        layer_fits(layer, boss),
    ensures
        intent_ready(e),
        !enters_rage(e),
{
    assert(layer / 3 <= 0x3000_0000);
    assert(e.hp >= 0);
    assert forall|roll: int| 0 <= roll < 100 implies #[trigger] ready_for(
        e.ai_pattern,
        next_sequence(e),
        next_step(e),
        roll,
        e.strength as int,
    ) by {
        if t == EnemyType::GreatDemon {
            assert(great_demon_sequence()[0] == EnemyIntent::Attack { damage: 15 });
        }
    }
}

/// The enemy picks the first move it shows as the battle begins.
fn show_first_move(enemy: &mut Enemy, Ghost(id): Ghost<u32>, Ghost(t): Ghost<EnemyType>, layer: u32, is_boss: bool)
    requires
        encounter_enemy(*old(enemy), id, t, layer as int, is_boss),
        layer_fits(layer as int, is_boss),
    ensures
        encounter_ready(*final(enemy), id, t, layer as int, is_boss),
{
    proof {
        lemma_fresh_ready(*enemy, id, t, layer as int, is_boss);
    }
    let ghost e0 = *enemy;
    enemy.choose_new_intent();
    proof {
        let e = *enemy;
        assert(chances(e.ai_pattern) == chances(e0.ai_pattern));
        if pattern_of(t).1.len() == 0 {
            let roll = choose|roll: int|
                0 <= roll < 100 && #[trigger] intent_fits_roll(e0.ai_pattern, roll, e0.strength as int, e.intent);
            assert(intent_fits_roll(e.ai_pattern, roll, e.strength as int, e.intent));
        }
    }
}

/// The kind of enemy a draw from `0..3` brings outside a boss fight: a wolf, a spider, or
/// (from 2 up) a spirit.
pub fn encounter_kind(pick: u64) -> (t: EnemyType)
    ensures
        pick == 0 ==> t == EnemyType::DemonicWolf,
        pick == 1 ==> t == EnemyType::PoisonSpider,
        pick >= 2 ==> t == EnemyType::CursedSpirit,
{
    if pick == 0 {
        EnemyType::DemonicWolf
    } else if pick == 1 {
        EnemyType::PoisonSpider
    } else {
        EnemyType::CursedSpirit
    }
}

/// The kind `encounter_kind` gives for a draw.
pub open spec fn kind_for_pick(pick: int) -> EnemyType {
    if pick == 0 {
        EnemyType::DemonicWolf
    } else if pick == 1 {
        EnemyType::PoisonSpider
    } else {
        EnemyType::CursedSpirit
    }
}

/// The enemies of an ordinary battle on a layer, one for each draw, of the kind the draw
/// gives, numbered from zero, each having picked the first move it shows.
pub fn build_encounter(layer: u32, picks: &Vec<u64>) -> (r: Vec<Enemy>)
    requires
        layer_fits(layer as int, false),
        picks@.len() <= u32::MAX,
    ensures
        r@.len() == picks@.len(),
        forall|i: int|
            0 <= i < r@.len() ==> encounter_ready(#[trigger] r@[i], i as u32, kind_for_pick(picks@[i] as int), layer as int, false),
{
    let mut enemies: Vec<Enemy> = Vec::new();
    let mut i: usize = 0;
    while i < picks.len()
        invariant
            i <= picks@.len(),
            picks@.len() <= u32::MAX,
            enemies@.len() == i,
            layer_fits(layer as int, false),
            forall|j: int|
                0 <= j < i ==> encounter_ready(#[trigger] enemies@[j], j as u32, kind_for_pick(picks@[j] as int), layer as int, false),
        decreases picks@.len() - i,
    {
        let t = encounter_kind(picks[i]);
        let mut enemy = make_enemy(i as u32, t, layer, false);
        show_first_move(&mut enemy, Ghost(i as u32), Ghost(t), layer, false);
        enemies.push(enemy);
        i = i + 1;
    }
    enemies
}

/// The enemies of a new battle on a layer, each having picked the first move it shows: at
/// the boss, the great demon alone; elsewhere as many enemies as one plus a draw from `0..3`,
/// each of the kind `encounter_kind` gives for its own draw from `0..3` (see `build_encounter`).
pub fn spawn_encounter(layer: u32, is_boss: bool) -> (r: Vec<Enemy>)
    requires
        layer_fits(layer as int, is_boss),
    ensures
        is_boss ==> r@.len() == 1 && encounter_ready(r@[0], 0, EnemyType::GreatDemon, layer as int, true),
        !is_boss ==> exists|picks: Seq<u64>|
            #![trigger picks.len()]
            1 <= picks.len() <= 3 && (forall|i: int| 0 <= i < picks.len() ==> picks[i] < 3)
                && r@.len() == picks.len() && (forall|i: int|
                0 <= i < r@.len() ==> encounter_ready(
                    #[trigger] r@[i],
                    i as u32,
                    kind_for_pick(picks[i] as int),
                    layer as int,
                    false,
                )),
{
    if is_boss {
        let mut boss = make_enemy(0, EnemyType::GreatDemon, layer, true);
        show_first_move(&mut boss, Ghost(0u32), Ghost(EnemyType::GreatDemon), layer, true);
        let mut enemies: Vec<Enemy> = Vec::new();
        enemies.push(boss);
        return enemies;
    }
    let count: u64 = 1 + random_below(3);
    let mut picks: Vec<u64> = Vec::new();
    let mut k: u64 = 0;
    while k < count
        invariant
            1 <= count <= 3,
            k <= count,
            picks@.len() == k,
            forall|i: int| 0 <= i < picks@.len() ==> picks@[i] < 3,
        decreases count - k,
    {
        picks.push(random_below(3));
        k = k + 1;
    }
    let r = build_encounter(layer, &picks);
    proof {
        assert(picks@.len() == picks@.len());
    }
    r
}

// ============================================================================
// Laws
// ============================================================================

/// Drawing never grows a hand past its size, and into a hand with room for every card drawn
/// it loses none: the cards simply move from the pile to the hand.
pub proof fn law_drawing_moves_cards(pile: Seq<Card>, hand: Seq<Card>, max_size: int, k: int)
    requires
        0 <= k <= pile.len(),
    ensures
        dealt(hand, max_size, pile.take(k)).len() <= if hand.len() > max_size { hand.len() as int } else { max_size },
        hand.len() + k <= max_size ==> {
            &&& dealt(hand, max_size, pile.take(k)) == hand + pile.take(k)
            &&& (pile.skip(k) + dealt(hand, max_size, pile.take(k))).to_multiset() == (pile + hand).to_multiset()
        },
{
    if hand.len() + k <= max_size {
        assert(dealt(hand, max_size, pile.take(k)) =~= hand + pile.take(k));
        assert(pile =~= pile.take(k) + pile.skip(k));
        vstd::seq_lib::lemma_multiset_commutative(pile.take(k), pile.skip(k));
        vstd::seq_lib::lemma_multiset_commutative(pile.skip(k), hand + pile.take(k));
        vstd::seq_lib::lemma_multiset_commutative(hand, pile.take(k));
        vstd::seq_lib::lemma_multiset_commutative(pile, hand);
        assert((pile.skip(k) + (hand + pile.take(k))).to_multiset() =~= pile.skip(k).to_multiset().add(hand.to_multiset().add(pile.take(k).to_multiset())));
        assert((pile + hand).to_multiset() =~= pile.take(k).to_multiset().add(pile.skip(k).to_multiset()).add(hand.to_multiset()));
    }
}

/// A battle is won or lost, never both: a player with no hit points has lost, whatever the
/// enemies; a won battle had enemies and none of them stands.
pub proof fn law_outcome_is_decided(p: Player, enemies: Seq<Enemy>)
    ensures
        outcome_of(p, enemies) == CombatOutcome::Defeat <==> p.hp <= 0,
        outcome_of(p, enemies) == CombatOutcome::Victory ==> enemies.len() > 0 && forall|j: int|
            0 <= j < enemies.len() ==> #[trigger] enemies[j].hp <= 0,
        outcome_of(p, enemies) == CombatOutcome::Ongoing ==> p.hp > 0 && (enemies.len() == 0
            || exists|i: int| is_first_alive(enemies, i)),
{
    if outcome_of(p, enemies) == CombatOutcome::Ongoing && enemies.len() > 0 {
        lemma_some_alive(enemies, 0);
    }
}

proof fn lemma_some_alive(enemies: Seq<Enemy>, from: int)
    requires
        0 <= from <= enemies.len(),
        forall|j: int| 0 <= j < from ==> #[trigger] enemies[j].hp <= 0,
        !none_alive(enemies),
    ensures
        exists|i: int| is_first_alive(enemies, i),
    decreases enemies.len() - from,
{
    if from == enemies.len() {
        assert(none_alive(enemies));
    } else if enemies[from].hp > 0 {
        assert(is_first_alive(enemies, from));
    } else {
        lemma_some_alive(enemies, from + 1);
    }
}

} // verus!
