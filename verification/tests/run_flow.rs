use card_battler::cards::{create_starting_deck, Card, CardEffect};
use card_battler::combat::Player;
use card_battler::cultivation::{Cultivation, Realm};
use card_battler::map::{MapConfig, MapProgress, NodeType};
use card_battler::relic::{Relic, RelicCollection, RelicId};
use card_battler::run::{
    choose_reward_card, enter_map_node, event_choices, finish_tribulation, generate_relic_reward,
    reset_run, resolve_event, tribulation_strike, EventChoice,
};
use card_battler::states::GameState;

fn fresh_map() -> MapProgress {
    MapProgress::new(&MapConfig::default())
}

#[test]
fn only_unlocked_unfinished_nodes_can_be_entered() {
    let mut map = fresh_map();
    // Node 4 lies on the second layer and is still locked.
    assert_eq!(enter_map_node(&mut map, 4), None);
    assert_eq!(map.current_node_id, None);
    assert_eq!(enter_map_node(&mut map, 999), None);
    let node_type = map.nodes[1].node_type;
    let r = enter_map_node(&mut map, 1);
    let expected = match node_type {
        NodeType::Normal | NodeType::Elite | NodeType::Boss => Some(GameState::Combat),
        NodeType::Rest => Some(GameState::Rest),
        NodeType::Shop => Some(GameState::Shop),
        NodeType::Event => Some(GameState::Event),
        NodeType::Treasure => Some(GameState::Reward),
        NodeType::Unknown => None,
    };
    assert_eq!(r, expected);
    assert_eq!(map.current_node_id, Some(1));
    assert_eq!(map.current_layer, 0);
    map.complete_current_node();
    assert_eq!(enter_map_node(&mut map, 1), None);
}

#[test]
fn the_boss_node_leads_to_battle() {
    let mut map = fresh_map();
    map.nodes[37].unlocked = true;
    assert_eq!(enter_map_node(&mut map, 37), Some(GameState::Combat));
    assert!(map.is_at_boss());
    assert_eq!(map.current_layer, 9);
}

#[test]
fn event_choices_are_gold_healing_or_leaving() {
    assert_eq!(event_choices(), vec![EventChoice::GainGold(50), EventChoice::Heal(20), EventChoice::Leave]);
    let mut map = fresh_map();
    enter_map_node(&mut map, 0);
    let mut p = Player::default();
    p.hp = 70;
    resolve_event(EventChoice::Heal(20), &mut p, &mut map);
    assert_eq!(p.hp, 80);
    assert!(map.nodes[0].completed);
    resolve_event(EventChoice::GainGold(50), &mut p, &mut map);
    assert_eq!(p.gold, 150);
    let before = p;
    resolve_event(EventChoice::Leave, &mut p, &mut map);
    assert_eq!(p, before);
}

#[test]
fn a_reward_card_joins_the_deck_renumbered() {
    let mut deck = create_starting_deck();
    let mut map = fresh_map();
    enter_map_node(&mut map, 2);
    let offered = vec![
        card_battler::cards::Card::new(1000, "疾风刺", "造成4点快速伤害", card_battler::cards::CardType::Attack, 0, CardEffect::DealDamage { amount: 4 }, card_battler::cards::CardRarity::Common),
        card_battler::cards::Card::new(1001, "御剑·流云", "造成8点伤害，抽2张牌", card_battler::cards::CardType::Attack, 2, CardEffect::AttackAndDraw { damage: 8, cards: 2 }, card_battler::cards::CardRarity::Uncommon),
    ];
    assert!(choose_reward_card(&mut deck, &mut map, &offered, 1001));
    assert_eq!(deck.len(), 13);
    let last: &Card = &deck[12];
    assert_eq!(last.id, 1012);
    assert_eq!(last.name, "御剑·流云");
    assert_eq!(last.effect, CardEffect::AttackAndDraw { damage: 8, cards: 2 });
    assert!(map.nodes[2].completed);
    assert!(!choose_reward_card(&mut deck, &mut map, &offered, 12345));
    assert_eq!(deck.len(), 13);
}

#[test]
fn relic_rewards_offer_only_unowned_kinds() {
    let mut relics = RelicCollection::default();
    relics.add_relic(Relic::burning_blood());
    relics.add_relic(Relic::anchor());
    for _ in 0..20 {
        let r = generate_relic_reward(&relics).expect("two kinds are left");
        assert!(r.id == RelicId::BagOfPreparation || r.id == RelicId::StrangeSpoon);
    }
    relics.add_relic(Relic::bag_of_preparation());
    relics.add_relic(Relic::strange_spoon());
    assert!(generate_relic_reward(&relics).is_none());
}

#[test]
fn lightning_deals_twelve_percent_but_at_least_ten() {
    let mut p = Player::default();
    assert_eq!(tribulation_strike(&mut p), (10, false));
    assert_eq!(p.hp, 70);
    p.max_hp = 250;
    assert_eq!(tribulation_strike(&mut p), (30, false));
    assert_eq!(p.hp, 40);
    p.max_hp = 1000;
    assert_eq!(tribulation_strike(&mut p), (120, true));
    assert_eq!(p.hp, -80);
}

#[test]
fn breakthrough_to_foundation_grants_the_innate_technique() {
    let mut p = Player::default();
    p.hp = 10;
    let mut c = Cultivation::new();
    c.gain_insight(45);
    let mut deck = create_starting_deck();
    let mut map = fresh_map();
    enter_map_node(&mut map, 0);
    map.complete_current_node();
    assert!(finish_tribulation(&mut p, &mut c, &mut deck, &mut map));
    assert_eq!(c, Cultivation { realm: Realm::FoundationEstablishment, insight: 5 });
    assert_eq!((p.max_hp, p.hp, p.gold), (130, 130, 200));
    assert_eq!(deck.len(), 13);
    assert_eq!(deck[12].id, 999);
    assert_eq!(map.current_node_id, None);
    assert_eq!(map.current_layer, 0);
    assert!(map.nodes.iter().all(|n| !n.completed));
}

#[test]
fn no_breakthrough_without_insight_or_life() {
    let mut p = Player::default();
    let mut c = Cultivation::new();
    let mut deck = create_starting_deck();
    let mut map = fresh_map();
    assert!(!finish_tribulation(&mut p, &mut c, &mut deck, &mut map));
    c.gain_insight(100);
    p.hp = 0;
    assert!(!finish_tribulation(&mut p, &mut c, &mut deck, &mut map));
    assert_eq!(c.realm, Realm::QiRefining);
    assert_eq!(deck.len(), 12);
}

#[test]
fn golden_core_breakthrough_bonus() {
    let mut p = Player::default();
    let mut c = Cultivation { realm: Realm::FoundationEstablishment, insight: 260 };
    let mut deck = create_starting_deck();
    let mut map = fresh_map();
    assert!(finish_tribulation(&mut p, &mut c, &mut deck, &mut map));
    assert_eq!(c, Cultivation { realm: Realm::GoldenCore, insight: 10 });
    assert_eq!((p.max_hp, p.hp, p.gold), (180, 180, 300));
    assert_eq!(deck.len(), 12);
}

#[test]
fn starting_over_restores_a_new_run() {
    let mut p = Player::default();
    p.hp = 0;
    p.gold = 7;
    let mut c = Cultivation { realm: Realm::GoldenCore, insight: 3 };
    let mut deck: Vec<Card> = Vec::new();
    let mut relics = RelicCollection::default();
    relics.add_relic(Relic::anchor());
    let mut map = fresh_map();
    enter_map_node(&mut map, 0);
    reset_run(&mut p, &mut c, &mut deck, &mut relics, &mut map);
    assert_eq!(p, Player::default());
    assert_eq!(c, Cultivation::new());
    assert_eq!(deck.len(), 12);
    assert_eq!(relics.count(), 1);
    assert!(relics.has(RelicId::BurningBlood));
    assert_eq!(map.current_node_id, None);
}

#[test]
fn taking_a_relic_reward_completes_the_node() {
    let mut relics = RelicCollection::default();
    let mut map = fresh_map();
    enter_map_node(&mut map, 3);
    assert!(card_battler::run::take_relic_reward(&mut relics, &mut map, Relic::anchor()));
    assert!(relics.has(RelicId::Anchor));
    assert!(map.nodes[3].completed);
    assert!(!card_battler::run::take_relic_reward(&mut relics, &mut map, Relic::anchor()));
    assert_eq!(relics.count(), 1);
}

#[test]
fn lightning_damage_matches_the_strike() {
    assert_eq!(card_battler::run::lightning_damage(80), 10);
    assert_eq!(card_battler::run::lightning_damage(125), 15);
    assert_eq!(card_battler::run::lightning_damage(-5), 10);
}

#[test]
fn a_reward_from_the_offer_joins_the_deck() {
    let offered = card_battler::cards::CardPool::random_rewards(3);
    let mut deck = create_starting_deck();
    let mut map = fresh_map();
    assert!(choose_reward_card(&mut deck, &mut map, &offered, offered[2].id));
    let last = &deck[12];
    assert_eq!(last.id, 1012);
    assert_eq!((&last.name, last.cost, last.effect, last.rarity), (&offered[2].name, offered[2].cost, offered[2].effect, offered[2].rarity));
}

#[test]
fn relic_draws_pick_by_position() {
    assert_eq!(Relic::for_draw(0).id, RelicId::BurningBlood);
    assert_eq!(Relic::for_draw(3).id, RelicId::StrangeSpoon);
    let mut relics = RelicCollection::default();
    relics.add_relic(Relic::bag_of_preparation());
    let available = card_battler::run::unowned_relics(&relics);
    assert_eq!(available, vec![RelicId::BurningBlood, RelicId::Anchor, RelicId::StrangeSpoon]);
    assert_eq!(card_battler::run::relic_for_draw(&available, 1).map(|r| r.id), Some(RelicId::Anchor));
    assert!(card_battler::run::relic_for_draw(&available, 3).is_none());
}
