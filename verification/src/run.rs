//! Between battles: travelling the map, chance encounters, rewards, the tribulation, and
//! starting a run over.

use crate::battle::{find_card, first_with_card_id, holds_card};
use crate::cards::{
    card_view, create_starting_deck, starting_deck, views, with_id, Card, CardEffect, CardPool,
    CardRarity, CardType, CardView,
};
use crate::combat::Player;
use crate::cultivation::{next_realm, threshold, Cultivation, Realm};
use crate::map::{
    completed_current, find_node, first_index, first_with_id, has_id, lemma_first_index,
    lemma_first_unique, map_wf, unlocked_after, MapConfig, MapNode, MapProgress, NodeType,
};
use crate::relic::{ids, relic_of, Relic, RelicCollection, RelicId};
use crate::rng::random_below;
use crate::states::GameState;
use vstd::prelude::*;

verus! {

// ============================================================================
// Travelling the map
// ============================================================================

/// The screen a node leads to; none for a node of unknown kind.
pub open spec fn state_for_node(t: NodeType) -> Option<GameState> {
    match t {
        NodeType::Normal | NodeType::Elite | NodeType::Boss => Some(GameState::Combat),
        NodeType::Rest => Some(GameState::Rest),
        NodeType::Shop => Some(GameState::Shop),
        NodeType::Event => Some(GameState::Event),
        NodeType::Treasure => Some(GameState::Reward),
        NodeType::Unknown => None,
    }
}

/// Every kind of node but the unknown one leads somewhere: ordinary, elite and boss nodes to a
/// battle, rests to the rest site, shops to the shop, events to the event, treasure to the
/// reward screen; and only those three fighting kinds lead to a battle.
pub proof fn law_node_screens(t: NodeType)
    ensures
        (t == NodeType::Normal || t == NodeType::Elite || t == NodeType::Boss) <==> state_for_node(t)
            == Some(GameState::Combat),
        t == NodeType::Rest <==> state_for_node(t) == Some(GameState::Rest),
        t == NodeType::Shop <==> state_for_node(t) == Some(GameState::Shop),
        t == NodeType::Event <==> state_for_node(t) == Some(GameState::Event),
        t == NodeType::Treasure <==> state_for_node(t) == Some(GameState::Reward),
        t == NodeType::Unknown <==> state_for_node(t) is None,
{
}

/// Travels to a node: only an unlocked node not yet completed can be entered; the player
/// then stands on it, and the screen it leads to is returned.
pub fn enter_map_node(map: &mut MapProgress, node_id: u32) -> (r: Option<GameState>)
    ensures
        final(map).nodes@ == old(map).nodes@,
        final(map).game_completed == old(map).game_completed,
        ({
            let nodes = old(map).nodes@;
            let enters = has_id(nodes, node_id) && nodes[first_index(nodes, node_id)].unlocked
                && !nodes[first_index(nodes, node_id)].completed;
            &&& enters ==> {
                let n = nodes[first_index(nodes, node_id)];
                &&& final(map).current_node_id == Some(node_id)
                &&& final(map).current_layer == n.position.0 as u32
                &&& r == state_for_node(n.node_type)
            }
            &&& !enters ==> {
                &&& r is None
                &&& final(map).current_node_id == old(map).current_node_id
                &&& final(map).current_layer == old(map).current_layer
            }
        }),
{
    let k = match find_node(&map.nodes, node_id) {
        Some(k) => k,
        None => {
            return None;
        },
    };
    proof {
        lemma_first_index(map.nodes@, node_id, k as int);
    }
    if !map.nodes[k].unlocked || map.nodes[k].completed {
        return None;
    }
    let node_type = map.nodes[k].node_type;
    map.set_current_node(node_id);
    proof {
        assert(first_with_id(old(map).nodes@, node_id, k as int) && old(map).nodes@[k as int].unlocked);
        let q = choose|q: int|
            first_with_id(old(map).nodes@, node_id, q) && map.current_layer == old(map).nodes@[q].position.0 as u32;
        lemma_first_unique(old(map).nodes@, node_id, q, k as int);
    }
    match node_type {
        NodeType::Normal | NodeType::Elite | NodeType::Boss => Some(GameState::Combat),
        NodeType::Rest => Some(GameState::Rest),
        NodeType::Shop => Some(GameState::Shop),
        NodeType::Event => Some(GameState::Event),
        NodeType::Treasure => Some(GameState::Reward),
        NodeType::Unknown => None,
    }
}

/// A completed node cannot be entered again: once the node the player stands on has been
/// completed (as an encounter, a reward or a battle's end does), `enter_map_node` refuses it.
pub proof fn law_completed_node_stays_closed(before: MapProgress, after: MapProgress, id: u32)
    requires
        before.current_node_id == Some(id),
        has_id(before.nodes@, id),
        completed_current(before, after),
    ensures
        has_id(after.nodes@, id),
        after.nodes@[first_index(after.nodes@, id)].completed,
{
    let k = first_index(before.nodes@, id);
    let marked = before.nodes@.update(k, MapNode { completed: true, ..before.nodes@[k] });
    assert(first_with_id(before.nodes@, id, k)) by {
        let w = choose|w: int| 0 <= w < before.nodes@.len() && #[trigger] before.nodes@[w].id == id;
        crate::map::lemma_first_exists(before.nodes@, id, w);
    }
    assert(after.nodes@[k] == (MapNode { unlocked: unlocked_after(marked, k), ..marked[k] }));
    assert forall|j: int| 0 <= j < k implies #[trigger] after.nodes@[j].id != id by {
        assert(after.nodes@[j] == (MapNode { unlocked: unlocked_after(marked, j), ..marked[j] }));
    }
    assert(first_with_id(after.nodes@, id, k));
    lemma_first_index(after.nodes@, id, k);
}

// ============================================================================
// Chance encounters
// ============================================================================

/// A choice offered by a chance encounter.
#[derive(Debug, Clone, Copy, PartialEq, Eq, Structural)]
pub enum EventChoice {
    /// Take the gold.
    GainGold(i32),
    /// Pray, and heal.
    Heal(i32),
    /// Walk away.
    Leave,
}

/// The choices a chance encounter offers: fifty gold, twenty hit points, or leaving.
pub fn event_choices() -> (r: Vec<EventChoice>)
    ensures
        r@ == seq![EventChoice::GainGold(50), EventChoice::Heal(20), EventChoice::Leave],
{
    let r = vec![EventChoice::GainGold(50), EventChoice::Heal(20), EventChoice::Leave];
    assert(r@ =~= seq![EventChoice::GainGold(50), EventChoice::Heal(20), EventChoice::Leave]);
    r
}

/// Takes a choice of a chance encounter, then completes the node so it cannot be entered again.
pub fn resolve_event(choice: EventChoice, player: &mut Player, map: &mut MapProgress)
    requires
        choice matches EventChoice::GainGold(a) ==> i32::MIN <= old(player).gold + a <= i32::MAX,
        choice matches EventChoice::Heal(a) ==> i32::MIN <= old(player).hp + a <= i32::MAX,
    ensures
        *final(player) == match choice {
            EventChoice::GainGold(a) => Player { gold: (old(player).gold + a) as i32, ..*old(player) },
            EventChoice::Heal(a) => Player {
                hp: if old(player).hp + a < old(player).max_hp {
                    (old(player).hp + a) as i32
                } else {
                    old(player).max_hp
                },
                ..*old(player)
            },
            EventChoice::Leave => *old(player),
        },
        completed_current(*old(map), *final(map)),
{
    match choice {
        EventChoice::GainGold(a) => {
            player.gold = player.gold + a;
        },
        EventChoice::Heal(a) => {
            player.heal(a);
        },
        EventChoice::Leave => {},
    }
    map.complete_current_node();
}

// ============================================================================
// Rewards
// ============================================================================

/// Takes a reward card: the first of the offered cards with the identifier joins the deck
/// under a new identifier, 1000 plus the deck's size (an identifier none of them has adds
/// nothing); either way the current node is completed.
pub fn choose_reward_card(deck: &mut Vec<Card>, map: &mut MapProgress, offered: &Vec<Card>, card_id: u32) -> (added: bool)
    requires
        old(deck)@.len() + 1000 <= u32::MAX,
    ensures
        added == holds_card(offered@, card_id),
        !added ==> final(deck)@ == old(deck)@,
        forall|k: int|
            #[trigger] first_with_card_id(offered@, card_id, k) ==> views(final(deck)@) == views(old(deck)@).push(
                with_id(offered@[k]@, (1000 + old(deck)@.len()) as u32),
            ),
        completed_current(*old(map), *final(map)),
{
    let added = match find_card(offered, card_id) {
        Some(k) => {
            let mut card = offered[k].clone();
            let n = deck.len() as u32;
            card.id = 1000 + n;
            deck.push(card);
            proof {
                assert(views(deck@) =~= views(old(deck)@).push(
                    with_id(offered@[k as int]@, (1000 + old(deck)@.len()) as u32),
                ));
                assert forall|q: int| #[trigger] first_with_card_id(offered@, card_id, q) implies q == k by {
                    if q < k {
                        assert(offered@[q].id != card_id);
                    } else if k < q {
                        assert(offered@[k as int].id != card_id);
                    }
                }
                assert(offered@[k as int].id == card_id);
            }
            true
        },
        None => false,
    };
    map.complete_current_node();
    added
}

/// The kinds of relic not owned yet, in the order the game lists them.
pub open spec fn unowned(owned: Seq<Relic>) -> Seq<RelicId> {
    let keep = |id: RelicId|
        if ids(owned).contains(id) {
            Seq::<RelicId>::empty()
        } else {
            seq![id]
        };
    keep(RelicId::BurningBlood) + keep(RelicId::BagOfPreparation) + keep(RelicId::Anchor) + keep(
        RelicId::StrangeSpoon,
    )
}

/// The kinds of relic the player does not own yet, in the order the game lists them.
pub fn unowned_relics(relics: &RelicCollection) -> (r: Vec<RelicId>)
    ensures
        r@ == unowned(relics.relic@),
{
    let mut r: Vec<RelicId> = Vec::new();
    let ghost owned = relics.relic@;
    if !relics.has(RelicId::BurningBlood) {
        r.push(RelicId::BurningBlood);
    }
    let ghost r1 = r@;
    if !relics.has(RelicId::BagOfPreparation) {
        r.push(RelicId::BagOfPreparation);
    }
    let ghost r2 = r@;
    if !relics.has(RelicId::Anchor) {
        r.push(RelicId::Anchor);
    }
    let ghost r3 = r@;
    if !relics.has(RelicId::StrangeSpoon) {
        r.push(RelicId::StrangeSpoon);
    }
    proof {
        let keep = |id: RelicId|
            if ids(owned).contains(id) {
                Seq::<RelicId>::empty()
            } else {
                seq![id]
            };
        assert(r1 =~= keep(RelicId::BurningBlood));
        assert(r2 =~= keep(RelicId::BurningBlood) + keep(RelicId::BagOfPreparation));
        assert(r3 =~= keep(RelicId::BurningBlood) + keep(RelicId::BagOfPreparation) + keep(RelicId::Anchor));
        assert(r@ =~= unowned(owned));
    }
    r
}

/// The relic offered for a draw `k` among the kinds on offer: the `k`-th of them, or none
/// when `k` lies past the end.
pub fn relic_for_draw(available: &Vec<RelicId>, k: u64) -> (r: Option<Relic>)
    ensures
        k < available@.len() ==> r is Some && r->0.id == available@[k as int] && r->0@ == relic_of(r->0.id),
        k >= available@.len() ==> r is None,
{
    if k < available.len() as u64 {
        Some(Relic::of_id(available[k as usize]))
    } else {
        None
    }
}

/// Offers a relic the player does not own yet, picked at random among those kinds (the one
/// `relic_for_draw` gives for a draw below their number); none when every kind is owned.
pub fn generate_relic_reward(relics: &RelicCollection) -> (r: Option<Relic>)
    ensures
        r is None <==> unowned(relics.relic@).len() == 0,
        r matches Some(x) ==> exists|k: int|
            0 <= k < unowned(relics.relic@).len() && x.id == #[trigger] unowned(relics.relic@)[k]
                && x@ == relic_of(x.id),
{
    let available = unowned_relics(relics);
    if available.len() == 0 {
        return None;
    }
    let k = random_below(available.len() as u64);
    let r = relic_for_draw(&available, k);
    proof {
        assert(unowned(relics.relic@)[k as int] == available@[k as int]);
    }
    r
}

/// A kind is on offer exactly when it is not owned.
pub proof fn law_unowned_are_not_owned(owned: Seq<Relic>, id: RelicId)
    ensures
        unowned(owned).contains(id) <==> !ids(owned).contains(id),
{
    let keep = |x: RelicId|
        if ids(owned).contains(x) {
            Seq::<RelicId>::empty()
        } else {
            seq![x]
        };
    let u = unowned(owned);
    if !ids(owned).contains(id) {
        let k: int = match id {
            RelicId::BurningBlood => 0,
            RelicId::BagOfPreparation => keep(RelicId::BurningBlood).len() as int,
            RelicId::Anchor => (keep(RelicId::BurningBlood).len() + keep(RelicId::BagOfPreparation).len()) as int,
            RelicId::StrangeSpoon => (keep(RelicId::BurningBlood).len() + keep(RelicId::BagOfPreparation).len()
                + keep(RelicId::Anchor).len()) as int,
        };
        assert(u[k] == id);
    }
    if u.contains(id) {
        let k = choose|k: int| 0 <= k < u.len() && u[k] == id;
        assert(!ids(owned).contains(u[k]));
    }
}

/// Takes an offered relic (it joins the collection unless one of its kind is already owned),
/// then completes the current node. Returns whether the relic was added.
pub fn take_relic_reward(relics: &mut RelicCollection, map: &mut MapProgress, relic: Relic) -> (added: bool)
    ensures
        added == !ids(old(relics).relic@).contains(relic.id),
        added ==> final(relics).relic@ == old(relics).relic@.push(relic),
        !added ==> final(relics).relic@ == old(relics).relic@,
        completed_current(*old(map), *final(map)),
{
    let added = relics.add_relic(relic);
    map.complete_current_node();
    added
}

// ============================================================================
// The tribulation
// ============================================================================

/// The damage a bolt of heavenly lightning deals: twelve percent of the maximum hit points,
/// rounded down, but at least ten.
pub open spec fn strike_damage(max_hp: int) -> int {
    let q = max_hp * 12 / 100;
    if q < 10 {
        10
    } else {
        q
    }
}

/// The damage a bolt of heavenly lightning deals to a player with the given maximum hit points.
pub fn lightning_damage(max_hp: i32) -> (r: i32)
    ensures
        r == strike_damage(max_hp as int),
{
    let scaled: i64 = (max_hp as i64) * 12;
    let q: i64 = if scaled >= 0 {
        scaled / 100
    } else {
        -((-scaled + 99) / 100)
    };
    if q < 10 {
        10
    } else {
        q as i32
    }
}

/// A bolt of heavenly lightning strikes the player, ignoring block. Returns the damage and
/// whether the player has fallen.
pub fn tribulation_strike(player: &mut Player) -> (r: (i32, bool))
    requires
        old(player).hp - strike_damage(old(player).max_hp as int) >= i32::MIN,
    ensures
        r.0 == strike_damage(old(player).max_hp as int),
        *final(player) == (Player { hp: (old(player).hp - r.0) as i32, ..*old(player) }),
        r.1 == (final(player).hp <= 0),
{
    let damage = lightning_damage(player.max_hp);
    player.hp = player.hp - damage;
    (damage, player.hp <= 0)
}

/// The extra maximum hit points and gold a breakthrough into a realm grants.
pub open spec fn breakthrough_bonus(r: Realm) -> (i32, i32) {
    match r {
        Realm::FoundationEstablishment => (50, 100),
        Realm::GoldenCore => (100, 200),
        _ => (20, 50),
    }
}

/// A bolt of heavenly lightning deals 12% of the player's maximum hit points, rounded down,
/// but never less than 10: exactly 10 up to 83 maximum hit points, and a bolt never hits a
/// sturdier player less hard.
pub proof fn law_lightning_damage(max_hp: int, other: int)
    requires
        0 <= max_hp,
        max_hp <= other,
    ensures
        strike_damage(max_hp) >= 10,
        strike_damage(max_hp) >= max_hp * 12 / 100,
        max_hp < 84 ==> strike_damage(max_hp) == 10,
        max_hp >= 84 ==> strike_damage(max_hp) == max_hp * 12 / 100,
        strike_damage(max_hp) <= strike_damage(other),
{
    assert(max_hp * 12 / 100 <= other * 12 / 100) by (nonlinear_arith)
        requires
            0 <= max_hp <= other,
    ;
    if max_hp < 84 {
        assert(max_hp * 12 / 100 < 10) by (nonlinear_arith)
            requires
                0 <= max_hp < 84,
        ;
    } else {
        assert(max_hp * 12 / 100 >= 10) by (nonlinear_arith)
            requires
                max_hp >= 84,
        ;
    }
}

/// The tribulation ends in a breakthrough exactly when the player is still standing and has
/// gathered the insight the realm asks for: 40 in Qi Refining, 250 in Foundation
/// Establishment, 600 in Golden Core; Nascent Soul, the highest realm, never breaks through.
pub proof fn law_breakthrough_needs(p: Player, c: Cultivation)
    ensures
        c.realm == Realm::QiRefining ==> (breaks_through(p, c) <==> p.hp > 0 && c.insight >= 40),
        c.realm == Realm::FoundationEstablishment ==> (breaks_through(p, c) <==> p.hp > 0
            && c.insight >= 250),
        c.realm == Realm::GoldenCore ==> (breaks_through(p, c) <==> p.hp > 0 && c.insight >= 600),
        c.realm == Realm::NascentSoul ==> !breaks_through(p, c),
        breaks_through(p, c) ==> next_realm(c.realm) is Some && p.hp > 0,
{
}

/// Every breakthrough grants more maximum hit points and more gold: 50 and 100 into
/// Foundation Establishment, 100 and 200 into Golden Core, 20 and 50 into Nascent Soul; so
/// after `finish_tribulation` succeeds the player has gained exactly those, at full health,
/// with everything else as it was.
pub proof fn law_breakthrough_bonus(p: Player, c: Cultivation)
    requires
        breaks_through(p, c),
        breakthrough_fits(p, c),
    ensures
        ({
            let q = after_breakthrough(p, next_realm(c.realm)->0);
            &&& q.max_hp > p.max_hp && q.gold > p.gold
            &&& q.hp == q.max_hp
            &&& c.realm == Realm::GoldenCore ==> q.max_hp == p.max_hp + 20 && q.gold == p.gold + 50
            &&& c.realm == Realm::FoundationEstablishment ==> q.max_hp == p.max_hp + 100 && q.gold
                == p.gold + 200
            &&& c.realm == Realm::QiRefining ==> q.max_hp == p.max_hp + 50 && q.gold == p.gold + 100
            &&& q == (Player { max_hp: q.max_hp, hp: q.hp, gold: q.gold, ..p })
        }),
        ({
            let (hp, gold) = breakthrough_bonus(next_realm(c.realm)->0);
            &&& hp >= 20 && gold >= 50
            &&& c.realm == Realm::QiRefining ==> hp == 50 && gold == 100
            &&& c.realm == Realm::FoundationEstablishment ==> hp == 100 && gold == 200
            &&& c.realm == Realm::GoldenCore ==> hp == 20 && gold == 50
        }),
{
}

/// The player after breaking through into `realm`: the realm's bonus added to the maximum
/// hit points and the gold, and healed to the new maximum.
pub open spec fn after_breakthrough(p: Player, realm: Realm) -> Player {
    let (hp, gold) = breakthrough_bonus(realm);
    Player { max_hp: (p.max_hp + hp) as i32, hp: (p.max_hp + hp) as i32, gold: (p.gold + gold) as i32, ..p }
}

/// The tribulation ends in a breakthrough: the player survived and has the insight for a
/// next realm.
pub open spec fn breaks_through(p: Player, c: Cultivation) -> bool {
    p.hp > 0 && c.insight >= threshold(c.realm) && next_realm(c.realm) is Some
}

/// The bonuses of a breakthrough fit.
pub open spec fn breakthrough_fits(p: Player, c: Cultivation) -> bool {
    breaks_through(p, c) ==> {
        let (hp, gold) = breakthrough_bonus(next_realm(c.realm)->0);
        &&& p.max_hp + hp <= i32::MAX
        &&& p.gold + gold <= i32::MAX
    }
}

/// The technique granted on reaching Foundation Establishment.
pub open spec fn innate_spell() -> CardView {
    card_view(999, "青莲剑歌"@, "造成30点穿透伤害，恢复10点灵力"@, CardType::Attack, 3,
        CardEffect::MultiAttack { damage: 10, times: 3 }, CardRarity::Special)
}

/// Ends the tribulation. A surviving player with enough insight breaks through to the next
/// realm: maximum hit points and gold grow by the realm's bonus, hit points are refilled, a new
/// map is laid out, and reaching Foundation Establishment adds the innate technique to the
/// deck. Returns whether the breakthrough happened; otherwise nothing changes.
pub fn finish_tribulation(
    player: &mut Player,
    cultivation: &mut Cultivation,
    deck: &mut Vec<Card>,
    map: &mut MapProgress,
) -> (r: bool)
    requires
        breakthrough_fits(*old(player), *old(cultivation)),
    ensures
        r == breaks_through(*old(player), *old(cultivation)),
        !r ==> {
            &&& *final(player) == *old(player)
            &&& *final(cultivation) == *old(cultivation)
            &&& final(deck)@ == old(deck)@
            &&& final(map).nodes@ == old(map).nodes@
            &&& final(map).current_node_id == old(map).current_node_id
            &&& final(map).current_layer == old(map).current_layer
        },
        r ==> {
            let realm = next_realm(old(cultivation).realm)->0;
            let (hp, gold) = breakthrough_bonus(realm);
            &&& *final(cultivation) == (Cultivation {
                realm,
                insight: (old(cultivation).insight - threshold(old(cultivation).realm)) as u32,
            })
            &&& *final(player) == after_breakthrough(*old(player), realm)
            &&& map_wf(final(map).nodes@, 10, 4)
            &&& final(map).current_node_id is None
            &&& final(map).current_layer == 0
            &&& views(final(deck)@) == if realm == Realm::FoundationEstablishment {
                views(old(deck)@).push(innate_spell())
            } else {
                views(old(deck)@)
            }
        },
        final(map).game_completed == old(map).game_completed,
{
    if player.hp <= 0 {
        return false;
    }
    if !cultivation.breakthrough() {
        return false;
    }
    let (hp_bonus, gold_bonus): (i32, i32) = match cultivation.realm {
        Realm::FoundationEstablishment => (50, 100),
        Realm::GoldenCore => (100, 200),
        _ => (20, 50),
    };
    player.max_hp = player.max_hp + hp_bonus;
    player.hp = player.max_hp;
    player.gold = player.gold + gold_bonus;
    let config = MapConfig::default();
    let fresh = MapProgress::new(&config);
    map.nodes = fresh.nodes;
    map.current_node_id = None;
    map.current_layer = 0;
    if cultivation.realm == Realm::FoundationEstablishment {
        let spell = CardPool::get_innate_spell();
        deck.push(spell);
        proof {
            assert(views(deck@) =~= views(old(deck)@).push(innate_spell()));
        }
    }
    true
}

// ============================================================================
// Starting over
// ============================================================================

/// Starts a run over after a defeat: a fresh player and cultivation, the starting deck, only
/// the Flying Sword Talisman, and a new map.
pub fn reset_run(
    player: &mut Player,
    cultivation: &mut Cultivation,
    deck: &mut Vec<Card>,
    relics: &mut RelicCollection,
    map: &mut MapProgress,
)
    ensures
        *final(player) == (Player {
            hp: 80,
            max_hp: 80,
            energy: 3,
            max_energy: 3,
            block: 0,
            gold: 100,
            turn: 1,
            sword_intent: 0,
            poison: 0,
            burn: 0,
            weakness: 0,
            vulnerable: 0,
        }),
        *final(cultivation) == (Cultivation { realm: Realm::QiRefining, insight: 0 }),
        views(final(deck)@) == starting_deck(),
        final(relics).relic@.len() == 1,
        final(relics).relic@[0]@ == relic_of(RelicId::BurningBlood),
        map_wf(final(map).nodes@, 10, 4),
        final(map).current_node_id is None,
        final(map).current_layer == 0,
        !final(map).game_completed,
{
    *player = Player::default();
    *cultivation = Cultivation::new();
    *deck = create_starting_deck();
    relics.relic.clear();
    relics.add_relic(Relic::burning_blood());
    map.reset();
}

} // verus!
