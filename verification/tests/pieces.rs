use card_battler::audio::SfxType;
use card_battler::cards::{
    create_starting_deck, Card, CardEffect, CardPool, CardRarity, CardType, DeckConfig, DiscardPile, DrawPile, Hand,
};
use card_battler::cultivation::{Cultivation, Realm};
use card_battler::dialogue::{Dialogue, DialogueLine};
use card_battler::map::{find_node, generate_map_nodes, node_type_for_roll, MapConfig, MapProgress, NodeType};
use card_battler::relic::{Relic, RelicCollection, RelicEffect, RelicId, RelicRarity};
use card_battler::save::{GameStateSave, LandscapeGenerator};
use card_battler::shop::ShopItem;
use card_battler::states::GameState;

fn card(id: u32, name: &str, rarity: CardRarity) -> Card {
    Card::new(id, name, "d", CardType::Attack, 1, CardEffect::DealDamage { amount: 1 }, rarity)
}

#[test]
fn starting_deck_and_settings() {
    let deck = create_starting_deck();
    assert_eq!(deck.len(), 12);
    assert_eq!(deck.iter().filter(|c| c.name == "御剑术").count(), 5);
    assert_eq!(deck.iter().filter(|c| c.name == "金光咒").count(), 4);
    assert_eq!(deck[9].effect, CardEffect::AttackAndDraw { damage: 3, cards: 1 });
    let config = DeckConfig::default();
    assert_eq!((config.max_hand_size, config.cards_per_turn, config.starting_deck.len()), (10, 5, 12));
    assert_eq!(CardRarity::Rare.get_chinese_name(), "地阶");
}

#[test]
fn piles_and_hand() {
    let mut draw = DrawPile::new(vec![card(1, "a", CardRarity::Common), card(2, "b", CardRarity::Common)]);
    assert_eq!(draw.draw_card().map(|c| c.id), Some(1));
    assert_eq!(draw.count, 1);
    draw.shuffle_from_discard(vec![card(3, "c", CardRarity::Common), card(4, "d", CardRarity::Common)]);
    assert_eq!(draw.count, 3);
    assert_eq!(draw.cards[0].id, 2);
    let mut rest: Vec<u32> = draw.cards[1..].iter().map(|c| c.id).collect();
    rest.sort();
    assert_eq!(rest, vec![3, 4]);
    let mut discard = DiscardPile::new();
    discard.add_card(card(5, "e", CardRarity::Common));
    let back = discard.clear();
    assert_eq!((back.len(), discard.count), (1, 0));
    let mut hand = Hand::new(1);
    assert!(hand.add_card(card(6, "f", CardRarity::Common)));
    assert!(!hand.add_card(card(7, "g", CardRarity::Common)));
    assert_eq!(hand.len(), 1);
    assert!(hand.remove_card(3).is_none());
    assert_eq!(hand.remove_card(0).map(|c| c.id), Some(6));
    assert!(hand.is_empty());
}

#[test]
fn discard_pile_gives_back_cards_in_order() {
    let mut discard = DiscardPile::new();
    for id in [7u32, 3, 9, 1] {
        discard.add_card(card(id, "x", CardRarity::Common));
    }
    assert_eq!(discard.count, 4);
    let back = discard.clear();
    assert_eq!(back.iter().map(|c| c.id).collect::<Vec<u32>>(), vec![7, 3, 9, 1]);
    assert!(discard.cards.is_empty());
    assert_eq!(discard.count, 0);
    assert!(discard.clear().is_empty());
}

#[test]
fn card_pool_by_rarity() {
    let all = CardPool::all_cards();
    assert_eq!(all.len(), 11);
    let rare: Vec<u32> = CardPool::get_by_rarity(CardRarity::Rare).iter().map(|c| c.id).collect();
    assert_eq!(rare, vec![300, 301, 302]);
    assert!(CardPool::get_by_rarity(CardRarity::Special).is_empty());
    assert_eq!(CardPool::rarity_for_roll(49), CardRarity::Common);
    assert_eq!(CardPool::rarity_for_roll(50), CardRarity::Uncommon);
    assert_eq!(CardPool::rarity_for_roll(89), CardRarity::Uncommon);
    assert_eq!(CardPool::rarity_for_roll(90), CardRarity::Rare);
    let spell = CardPool::get_innate_spell();
    assert_eq!((spell.id, spell.cost), (999, 3));
    assert_eq!(spell.effect, CardEffect::MultiAttack { damage: 10, times: 3 });
}

#[test]
fn random_cards_are_distinct_pool_cards() {
    let picked = CardPool::random_cards(4);
    assert_eq!(picked.len(), 4);
    let mut ids: Vec<u32> = picked.iter().map(|c| c.id).collect();
    ids.sort();
    ids.dedup();
    assert_eq!(ids.len(), 4);
    assert_eq!(CardPool::random_cards(50).len(), 11);
}

#[test]
fn rewards_are_renumbered() {
    let rewards = CardPool::random_rewards(3);
    assert_eq!(rewards.iter().map(|c| c.id).collect::<Vec<u32>>(), vec![1000, 1001, 1002]);
    assert!(rewards.iter().all(|c| c.rarity != CardRarity::Special));
}

#[test]
fn reward_card_follows_roll_and_pick() {
    let c = CardPool::reward_card(0, 2, 0).unwrap();
    assert_eq!((c.id, c.name.as_str(), c.rarity), (1000, "疾风刺", CardRarity::Common));
    let u = CardPool::reward_card(50, 0, 1).unwrap();
    assert_eq!((u.id, u.name.as_str(), u.rarity), (1001, "御剑·流云", CardRarity::Uncommon));
    let r = CardPool::reward_card(99, 2, 2).unwrap();
    assert_eq!((r.id, r.name.as_str(), r.rarity), (1002, "万物回春", CardRarity::Rare));
    assert!(CardPool::reward_card(10, 3, 0).is_none());
    assert!(CardPool::reward_card(95, 3, 0).is_none());
    assert!(CardPool::reward_card(60, 4, 0).is_some());
}

#[test]
fn relics_are_unique_by_kind() {
    let mut relics = RelicCollection::default();
    assert!(relics.is_empty());
    assert!(relics.add_relic(Relic::burning_blood()));
    assert!(!relics.add_relic(Relic::burning_blood()));
    assert_eq!(relics.count(), 1);
    assert!(relics.has(RelicId::BurningBlood));
    assert!(!relics.has(RelicId::Anchor));
    assert_eq!(relics.get(RelicId::BurningBlood).map(|r| r.id), Some(RelicId::BurningBlood));
    let spoon = Relic::strange_spoon();
    assert_eq!(spoon.effect, RelicEffect::OnCardPlayed { every_nth: 3, draw_cards: 1 });
    assert_eq!(spoon.rarity, RelicRarity::Rare);
    assert_eq!(Relic::by_rarity(RelicRarity::Common).len(), 2);
    assert_eq!(Relic::of_id(RelicId::Anchor).name, "定风珠");
    let r = Relic::random();
    assert_eq!(Relic::of_id(r.id).name, r.name);
}

#[test]
fn cultivation_breaks_through_realm_by_realm() {
    let mut c = Cultivation::new();
    assert_eq!(c.get_threshold(), 40);
    assert!(!c.can_breakthrough());
    assert!(!c.breakthrough());
    c.gain_insight(300);
    assert!(c.breakthrough());
    assert_eq!((c.realm, c.insight), (Realm::FoundationEstablishment, 260));
    assert!(c.breakthrough());
    assert_eq!((c.realm, c.insight), (Realm::GoldenCore, 10));
    assert_eq!((c.get_hp_bonus(), c.get_energy_bonus(), c.get_relic_slots()), (150, 2, 3));
    let mut top = Cultivation { realm: Realm::NascentSoul, insight: 5000 };
    assert!(!top.breakthrough());
    assert_eq!(Realm::default(), Realm::QiRefining);
}

#[test]
fn dialogue_plays_through() {
    let mut d = Dialogue::new(vec![DialogueLine::new("师父", "一"), DialogueLine::new("你", "二")]);
    assert_eq!(d.current_line().map(|l| l.text.clone()), Some("一".to_string()));
    d.next();
    assert_eq!(d.current_line().map(|l| l.speaker.clone()), Some("你".to_string()));
    assert!(!d.is_finished());
    d.next();
    assert!(d.is_finished());
    assert_eq!(d.current_line().map(|l| l.text.clone()), Some("二".to_string()));
}

#[test]
fn node_kinds_follow_the_layer_and_roll() {
    assert_eq!(node_type_for_roll(9, 0, 10, 50), NodeType::Boss);
    assert_eq!(node_type_for_roll(8, 0, 10, 50), NodeType::Elite);
    assert_eq!(node_type_for_roll(3, 1, 10, 14), NodeType::Event);
    assert_eq!(node_type_for_roll(3, 0, 10, 50), NodeType::Shop);
    assert_eq!(node_type_for_roll(3, 3, 10, 50), NodeType::Rest);
    assert_eq!(node_type_for_roll(3, 1, 10, 50), NodeType::Normal);
}

#[test]
fn generated_maps_are_grids_with_downward_paths() {
    let config = MapConfig::default();
    let nodes = generate_map_nodes(&config, 0);
    assert_eq!(nodes.len(), 40);
    for (k, n) in nodes.iter().enumerate() {
        assert_eq!(n.id, k as u32);
        assert_eq!(n.position, ((k / 4) as i32, (k % 4) as i32));
        assert_eq!(n.unlocked, k < 4);
        assert!(!n.completed);
        if k / 4 < 9 {
            assert!(!n.next_nodes.is_empty());
        }
        for &s in &n.next_nodes {
            assert_eq!(s as usize / 4, k / 4 + 1);
            let d = (s as i64 % 4) - (k as i64 % 4);
            assert!((-1..=1).contains(&d));
        }
        if k >= 4 {
            assert!(nodes.iter().any(|p| p.next_nodes.contains(&(k as u32))));
        }
    }
    assert_eq!(find_node(&nodes, 17), Some(17));
    assert_eq!(find_node(&nodes, 40), None);
}

#[test]
fn completing_a_node_unlocks_where_it_leads() {
    let mut map = MapProgress::default();
    map.set_current_node(2);
    assert_eq!(map.get_current_node().map(|n| n.id), Some(2));
    let next = map.nodes[2].next_nodes.clone();
    map.complete_current_node();
    assert!(map.nodes[2].completed);
    for id in next {
        assert!(map.nodes[id as usize].unlocked);
    }
    assert_eq!(map.current_layer, 0);
    let saved = map.nodes.clone();
    let restored = MapProgress::from_save(saved, Some(2), 0);
    assert_eq!(restored.current_node_id, Some(2));
    assert!(!map.is_boss_defeated());
    map.reset();
    assert_eq!(map.current_node_id, None);
}

#[test]
fn locked_nodes_cannot_be_entered() {
    let mut map = MapProgress::default();
    map.set_current_node(10);
    assert_eq!(map.current_node_id, None);
    assert!(!map.is_at_boss());
}

#[test]
fn shop_prices() {
    assert_eq!(ShopItem::Card(card(1, "剑", CardRarity::Uncommon)).get_price(), 50);
    assert_eq!(ShopItem::Card(card(1, "天象·引雷术", CardRarity::Common)).get_price(), 100);
    assert_eq!(ShopItem::Card(card(1, "上品天象·引雷术残卷", CardRarity::Rare)).get_price(), 100);
    assert_eq!(ShopItem::Card(card(1, "天象·引雷", CardRarity::Rare)).get_price(), 80);
    assert_eq!(ShopItem::Card(card(1, "天象·引雷天象·引雷", CardRarity::Common)).get_price(), 30);
    assert_eq!(ShopItem::Relic(Relic::anchor()).get_price(), 75);
    assert_eq!(ShopItem::ForgetTechnique.get_price(), 50);
    assert_eq!(ShopItem::ForgetTechnique.get_name(), "遗忘功法");
    let elixir = ShopItem::Elixir { name: "丹".to_string(), hp_restore: 20, price: 40, description: "回血".to_string() };
    assert_eq!((elixir.get_price(), elixir.get_name(), elixir.get_description()), (40, "丹", "回血"));
}

#[test]
fn sounds_and_screens() {
    assert_eq!(SfxType::CardPlay.file_path(), "audio/sfx/card_play.ogg");
    assert_eq!(SfxType::CardPlay.file_name(), "card_play");
    assert_eq!(SfxType::CardPlay.category(), "卡牌相关");
    assert_eq!(GameState::default(), GameState::MainMenu);
    assert_eq!(GameStateSave::get_save_path(), "savegame.json");
    assert_eq!(LandscapeGenerator::new(7).seed, 7);
}

#[test]
fn every_sound_path_names_its_file() {
    assert_eq!(SfxType::CardSelect.file_path(), "audio/sfx/card_select.ogg");
    assert_eq!(SfxType::Dodge.file_path(), "audio/sfx/dodge.ogg");
    for s in [SfxType::CardSelect, SfxType::Dodge, SfxType::UiHover, SfxType::BossDeath] {
        assert_eq!(s.file_path(), format!("audio/sfx/{}.ogg", s.file_name()));
    }
}

#[test]
fn sound_files_are_all_different() {
    let all = [
        SfxType::CardPlay,
        SfxType::DrawCard,
        SfxType::ShuffleCard,
        SfxType::CardHover,
        SfxType::CardSelect,
        SfxType::PlayerAttack,
        SfxType::PlayerHit,
        SfxType::EnemyHit,
        SfxType::Block,
        SfxType::CriticalHit,
        SfxType::Dodge,
        SfxType::LightningStrike,
        SfxType::FireSpell,
        SfxType::IceSpell,
        SfxType::Heal,
        SfxType::BuffApply,
        SfxType::DebuffApply,
        SfxType::ShieldUp,
        SfxType::UltimateStart,
        SfxType::UltimateRelease,
        SfxType::SwordStrike,
        SfxType::ThousandSwords,
        SfxType::UiClick,
        SfxType::UiHover,
        SfxType::UiConfirm,
        SfxType::UiCancel,
        SfxType::UiError,
        SfxType::BreakthroughStart,
        SfxType::BreakthroughSuccess,
        SfxType::LevelUp,
        SfxType::GoldGain,
        SfxType::RelicObtain,
        SfxType::Victory,
        SfxType::Defeat,
        SfxType::EnemySpawn,
        SfxType::EnemyDeath,
        SfxType::BossAppear,
        SfxType::BossDeath,
    ];
    let mut names: Vec<&str> = all.iter().map(|s| s.file_name()).collect();
    names.sort();
    names.dedup();
    assert_eq!(names.len(), 38);
    let mut paths: Vec<&str> = all.iter().map(|s| s.file_path()).collect();
    paths.sort();
    paths.dedup();
    assert_eq!(paths.len(), 38);
}

#[test]
fn dialogue_position_after_k_steps() {
    for k in 0..6usize {
        let mut d = Dialogue::new(vec![
            DialogueLine::new("a", "1"),
            DialogueLine::new("b", "2"),
            DialogueLine::new("c", "3"),
        ]);
        for _ in 0..k {
            d.next();
        }
        assert_eq!(d.index, k.min(2));
        assert_eq!(d.is_finished(), k >= 3);
        assert_eq!(d.current_line().map(|l| l.speaker.clone()), Some(["a", "b", "c"][k.min(2)].to_string()));
    }
}

#[test]
fn dialogue_index_stops_at_the_last_line() {
    let mut d = Dialogue::new(vec![DialogueLine::new("a", "1"), DialogueLine::new("b", "2")]);
    for _ in 0..4 {
        d.next();
    }
    assert_eq!(d.index, 1);
    assert!(d.is_finished());
    let mut empty = Dialogue::new(vec![]);
    assert!(empty.current_line().is_none());
    empty.next();
    assert!(empty.is_finished());
    assert_eq!(empty.index, 0);
}
