use card_battler::battle::{
    apply_card_effect, begin_player_turn, claim_victory_spoils, combat_outcome, draw_opening_hand,
    draw_turn_cards, draw_up_to, end_player_turn, enemy_act, find_card, first_alive,
    grant_victory_rewards, make_enemy, play_card, reset_player_for_combat, spawn_encounter,
    CombatOutcome, EnemyAction, PlayOutcome,
};
use card_battler::cards::{create_starting_deck, Card, CardEffect, CardRarity, CardType, DiscardPile, DrawPile, Hand};
use card_battler::combat::{CombatState, Enemy, EnemyIntent, EnemyType, Environment, Player, TurnPhase};
use card_battler::cultivation::Cultivation;

fn strike(id: u32) -> Card {
    Card::new(id, "御剑术", "造成6点伤害", CardType::Attack, 1, CardEffect::DealDamage { amount: 6 }, CardRarity::Common)
}

fn ids(cards: &[Card]) -> Vec<u32> {
    cards.iter().map(|c| c.id).collect()
}

fn sorted(mut v: Vec<u32>) -> Vec<u32> {
    v.sort();
    v
}

#[test]
fn first_alive_skips_the_fallen() {
    let mut a = Enemy::new(0, "狼", 30);
    a.hp = 0;
    let b = Enemy::new(1, "狼", 30);
    let enemies = vec![a, b];
    assert_eq!(first_alive(&enemies), Some(1));
    let none: Vec<Enemy> = vec![];
    assert_eq!(first_alive(&none), None);
}

#[test]
fn drawing_fills_the_hand_and_loses_what_does_not_fit() {
    let mut draw = DrawPile::new((0..6).map(strike).collect());
    let mut hand = Hand::new(3);
    hand.add_card(strike(100));
    let drawn = draw_up_to(&mut draw, &mut hand, 4);
    assert_eq!(drawn, 4);
    assert_eq!(ids(&hand.cards), vec![100, 0, 1]);
    assert_eq!(ids(&draw.cards), vec![4, 5]);
    assert_eq!(draw.count, 2);
    let drawn = draw_up_to(&mut draw, &mut hand, -2);
    assert_eq!(drawn, 0);
}

#[test]
fn drawing_into_a_roomy_hand_moves_every_card() {
    let mut draw = DrawPile::new((0..4).map(strike).collect());
    let mut hand = Hand::new(10);
    let drawn = draw_up_to(&mut draw, &mut hand, 9);
    assert_eq!(drawn, 4);
    assert_eq!(ids(&hand.cards), vec![0, 1, 2, 3]);
    assert!(draw.cards.is_empty());
}

#[test]
fn end_of_turn_moves_the_whole_hand_to_the_discard_pile() {
    let mut hand = Hand::new(10);
    for id in 0..3 {
        hand.add_card(strike(id));
    }
    let mut discard = DiscardPile::new();
    discard.add_card(strike(9));
    let mut state = CombatState::default();
    end_player_turn(&mut hand, &mut discard, &mut state);
    assert!(hand.is_empty());
    assert_eq!(ids(&discard.cards), vec![9, 0, 1, 2]);
    assert_eq!(discard.count, 4);
    assert_eq!(state.phase, TurnPhase::EnemyTurn);
}

#[test]
fn opening_hand_is_drawn_once() {
    let deck = create_starting_deck();
    let all = sorted(ids(&deck));
    let mut draw = DrawPile::new(deck);
    let mut hand = Hand::new(10);
    let mut state = CombatState::default();
    draw_opening_hand(&mut draw, &mut hand, &mut state);
    assert_eq!(hand.len(), 5);
    assert_eq!(draw.count, 7);
    assert!(state.cards_drawn_this_turn);
    let mut together = ids(&hand.cards);
    together.extend(ids(&draw.cards));
    assert_eq!(sorted(together), all);
    draw_opening_hand(&mut draw, &mut hand, &mut state);
    assert_eq!(hand.len(), 5);
}

#[test]
fn turn_draw_refills_from_the_discard_pile() {
    let mut draw = DrawPile::new(vec![]);
    let mut discard = DiscardPile::new();
    for id in 0..7 {
        discard.add_card(strike(id));
    }
    let mut hand = Hand::new(10);
    let mut state = CombatState::default();
    draw_turn_cards(&mut draw, &mut discard, &mut hand, &mut state, 1);
    assert_eq!(hand.len(), 0);
    draw_turn_cards(&mut draw, &mut discard, &mut hand, &mut state, 2);
    assert_eq!(hand.len(), 5);
    assert_eq!(draw.count, 2);
    assert_eq!(discard.count, 0);
    assert!(state.cards_drawn_this_turn);
    let mut together = ids(&hand.cards);
    together.extend(ids(&draw.cards));
    assert_eq!(sorted(together), (0..7).collect::<Vec<u32>>());
}

#[test]
fn turn_draw_with_nothing_left_does_not_count() {
    let mut draw = DrawPile::new(vec![]);
    let mut discard = DiscardPile::new();
    let mut hand = Hand::new(10);
    let mut state = CombatState::default();
    draw_turn_cards(&mut draw, &mut discard, &mut hand, &mut state, 3);
    assert!(!state.cards_drawn_this_turn);
}

#[test]
fn playing_a_strike_hits_the_first_standing_enemy() {
    let mut player = Player::default();
    let mut hand = Hand::new(10);
    hand.add_card(strike(4));
    let mut draw = DrawPile::new(vec![]);
    let mut discard = DiscardPile::new();
    let mut fallen = Enemy::new(0, "狼", 30);
    fallen.hp = 0;
    let mut enemies = vec![fallen, Enemy::new(1, "狼", 30), Enemy::new(2, "狼", 30)];
    let r = play_card(false, &mut player, &mut hand, &mut draw, &mut discard, &mut enemies, 4, None);
    assert_eq!(r, PlayOutcome::Played);
    assert_eq!(player.energy, 2);
    assert_eq!(enemies[1].hp, 24);
    assert_eq!(enemies[2].hp, 30);
    assert!(hand.is_empty());
    assert_eq!(ids(&discard.cards), vec![4]);
}

#[test]
fn playing_fails_without_the_card_or_the_energy() {
    let mut player = Player::default();
    player.energy = 0;
    let mut hand = Hand::new(10);
    hand.add_card(strike(4));
    let mut draw = DrawPile::new(vec![]);
    let mut discard = DiscardPile::new();
    let mut enemies = vec![Enemy::new(1, "狼", 30)];
    assert_eq!(
        play_card(false, &mut player, &mut hand, &mut draw, &mut discard, &mut enemies, 5, None),
        PlayOutcome::NotInHand
    );
    assert_eq!(
        play_card(false, &mut player, &mut hand, &mut draw, &mut discard, &mut enemies, 4, None),
        PlayOutcome::NotEnoughEnergy
    );
    assert_eq!(hand.len(), 1);
    assert_eq!(enemies[0].hp, 30);
    assert!(discard.cards.is_empty());
}

#[test]
fn multi_attack_hits_the_same_enemy_each_time() {
    let mut player = Player::default();
    let mut enemies = vec![Enemy::new(0, "狼", 40)];
    enemies[0].block = 12;
    let mut draw = DrawPile::new(vec![]);
    let mut hand = Hand::new(10);
    apply_card_effect(CardEffect::MultiAttack { damage: 10, times: 3 }, &mut player, &mut enemies, &mut draw, &mut hand, None);
    assert_eq!((enemies[0].hp, enemies[0].block), (22, 0));
}

#[test]
fn attack_and_draw_then_play_keeps_order() {
    let mut player = Player::default();
    let slash = Card::new(9, "剑气斩", "造成3点伤害，抽1张牌", CardType::Attack, 1, CardEffect::AttackAndDraw { damage: 3, cards: 1 }, CardRarity::Uncommon);
    let mut hand = Hand::new(10);
    hand.add_card(strike(1));
    hand.add_card(slash);
    hand.add_card(strike(2));
    let mut draw = DrawPile::new(vec![strike(7), strike(8)]);
    let mut discard = DiscardPile::new();
    let mut enemies = vec![Enemy::new(0, "狼", 30)];
    let r = play_card(false, &mut player, &mut hand, &mut draw, &mut discard, &mut enemies, 9, None);
    assert_eq!(r, PlayOutcome::Played);
    assert_eq!(ids(&hand.cards), vec![1, 2, 7]);
    assert_eq!(ids(&draw.cards), vec![8]);
    assert_eq!(enemies[0].hp, 27);
    assert_eq!(ids(&discard.cards), vec![9]);
}

#[test]
fn block_heal_and_energy_cards() {
    let mut player = Player::default();
    player.hp = 70;
    let mut enemies: Vec<Enemy> = vec![];
    let mut draw = DrawPile::new(vec![]);
    let mut hand = Hand::new(10);
    let fog = Environment::thick_fog();
    apply_card_effect(CardEffect::GainBlock { amount: 5 }, &mut player, &mut enemies, &mut draw, &mut hand, Some(&fog));
    assert_eq!(player.block, 6);
    apply_card_effect(CardEffect::Heal { amount: 20 }, &mut player, &mut enemies, &mut draw, &mut hand, None);
    assert_eq!(player.hp, 80);
    apply_card_effect(CardEffect::GainEnergy { amount: 2 }, &mut player, &mut enemies, &mut draw, &mut hand, None);
    assert_eq!(player.energy, 5);
}

#[test]
fn find_card_takes_the_first_match() {
    let cards = vec![strike(3), strike(5), strike(3)];
    assert_eq!(find_card(&cards, 3), Some(0));
    assert_eq!(find_card(&cards, 5), Some(1));
    assert_eq!(find_card(&cards, 6), None);
}

#[test]
fn a_fallen_enemy_does_nothing() {
    let mut e = Enemy::new(0, "狼", 30);
    e.hp = 0;
    let mut p = Player::default();
    assert_eq!(enemy_act(&mut e, &mut p, None), EnemyAction::Fallen);
    assert_eq!(p.hp, 80);
}

#[test]
fn the_great_demon_makes_the_move_it_shows() {
    let mut e = Enemy::with_type(0, "魔", 150, EnemyType::GreatDemon);
    e.block = 9;
    let mut p = Player::default();
    p.block = 5;
    // A fresh enemy shows that it waits: it waits, then shows its first attack.
    let r = enemy_act(&mut e, &mut p, None);
    assert_eq!(r, EnemyAction::Acted { intent: EnemyIntent::Wait, dealt: 0, player_down: false });
    assert_eq!(e.block, 0);
    assert_eq!(e.intent, EnemyIntent::Attack { damage: 15 });
    let r = enemy_act(&mut e, &mut p, None);
    assert_eq!(r, EnemyAction::Acted { intent: EnemyIntent::Attack { damage: 15 }, dealt: 15, player_down: false });
    assert_eq!((p.hp, p.block), (70, 0));
    assert_eq!(e.intent, EnemyIntent::Defend { block: 12 });
    let r = enemy_act(&mut e, &mut p, None);
    assert_eq!(r, EnemyAction::Acted { intent: EnemyIntent::Defend { block: 12 }, dealt: 0, player_down: false });
    assert_eq!(e.block, 12);
    assert!(e.is_charged);
    p.hp = 20;
    let r = enemy_act(&mut e, &mut p, Some(&Environment::thunder_storm()));
    assert_eq!(r, EnemyAction::Acted { intent: EnemyIntent::Attack { damage: 28 }, dealt: 67, player_down: true });
    assert_eq!(p.hp, 0);
}

#[test]
fn an_enemy_hits_for_the_attack_it_shows() {
    let mut e = Enemy::with_type(0, "魔", 150, EnemyType::GreatDemon);
    e.intent = EnemyIntent::Attack { damage: 5 };
    let mut p = Player::default();
    let r = enemy_act(&mut e, &mut p, None);
    assert_eq!(r, EnemyAction::Acted { intent: EnemyIntent::Attack { damage: 5 }, dealt: 5, player_down: false });
    assert_eq!(p.hp, 75);
    assert_eq!(e.intent, EnemyIntent::Attack { damage: 15 });
}

#[test]
fn the_enemy_turn_goes_through_the_enemies_in_order() {
    let mut fallen = Enemy::new(0, "狼", 30);
    fallen.hp = 0;
    let mut striker = Enemy::with_type(1, "魔", 150, EnemyType::GreatDemon);
    striker.intent = EnemyIntent::Attack { damage: 90 };
    let mut enemies = vec![fallen, striker];
    let mut p = Player::default();
    let mut s = CombatState { phase: TurnPhase::EnemyTurn, cards_drawn_this_turn: true };
    assert_eq!(
        card_battler::battle::enemy_turn_step(&mut enemies, 0, &mut p, &mut s, None),
        card_battler::battle::EnemyTurnStep::Acted { action: EnemyAction::Fallen, next: 1 }
    );
    let r = card_battler::battle::enemy_turn_step(&mut enemies, 1, &mut p, &mut s, None);
    assert!(matches!(r, card_battler::battle::EnemyTurnStep::PlayerDown { .. }));
    assert_eq!(p.hp, 0);
    let mut q = Player::default();
    let r = card_battler::battle::enemy_turn_step(&mut enemies, 2, &mut q, &mut s, None);
    assert_eq!(r, card_battler::battle::EnemyTurnStep::TurnOver);
    assert_eq!(s, CombatState { phase: TurnPhase::PlayerAction, cards_drawn_this_turn: false });
    assert_eq!((q.energy, q.turn), (3, 2));
}

#[test]
fn turns_hand_back_to_the_player() {
    let mut p = Player::default();
    p.energy = 0;
    let mut s = CombatState { phase: TurnPhase::EnemyTurn, cards_drawn_this_turn: true };
    begin_player_turn(&mut p, &mut s);
    assert_eq!((p.energy, p.turn), (3, 2));
    assert_eq!(s, CombatState { phase: TurnPhase::PlayerAction, cards_drawn_this_turn: false });
    p.block = 4;
    reset_player_for_combat(&mut p);
    assert_eq!((p.energy, p.block, p.turn), (3, 0, 1));
}

#[test]
fn outcomes_of_a_battle() {
    let mut p = Player::default();
    let mut fallen = Enemy::new(0, "狼", 30);
    fallen.hp = 0;
    assert_eq!(combat_outcome(&p, &vec![]), CombatOutcome::Ongoing);
    assert_eq!(combat_outcome(&p, &vec![Enemy::new(0, "狼", 30)]), CombatOutcome::Ongoing);
    assert_eq!(combat_outcome(&p, &vec![fallen]), CombatOutcome::Victory);
    p.hp = 0;
    let mut fallen = Enemy::new(0, "狼", 30);
    fallen.hp = 0;
    assert_eq!(combat_outcome(&p, &vec![fallen]), CombatOutcome::Defeat);
}

#[test]
fn victory_spoils() {
    let mut p = Player::default();
    let mut c = Cultivation::new();
    claim_victory_spoils(&mut p, &mut c, 12);
    assert_eq!((p.gold, c.insight), (112, 50));
    let gold = grant_victory_rewards(&mut p, &mut c);
    assert!((10..=25).contains(&gold));
    assert_eq!(p.gold, 112 + gold);
    assert_eq!(c.insight, 100);
}

#[test]
fn enemies_grow_with_the_layer() {
    let e = make_enemy(2, EnemyType::DemonicWolf, 4, false);
    assert_eq!((e.id, e.hp, e.max_hp, e.strength, e.block), (2, 48, 48, 1, 4));
    assert_eq!(e.name, "嗜血妖狼");
    assert_eq!(e.ai_pattern.damage_range, (9, 13));
    assert_eq!(e.ai_pattern.block_range, (5, 7));
    let boss = make_enemy(0, EnemyType::GreatDemon, 9, true);
    assert_eq!((boss.hp, boss.strength, boss.block), (352, 5, 13));
    assert_eq!(boss.ai_pattern.damage_range, (20, 26));
    assert_eq!(boss.name, "幽冥白虎");
}

#[test]
fn encounters_hold_one_to_three_enemies() {
    let boss = spawn_encounter(9, true);
    assert_eq!(boss.len(), 1);
    assert_eq!(boss[0].enemy_type, EnemyType::GreatDemon);
    assert_eq!(boss[0].intent, EnemyIntent::Attack { damage: 20 });
    assert_eq!(boss[0].ai_pattern.current_step, 1);
    assert_eq!(card_battler::battle::encounter_kind(0), EnemyType::DemonicWolf);
    assert_eq!(card_battler::battle::encounter_kind(1), EnemyType::PoisonSpider);
    assert_eq!(card_battler::battle::encounter_kind(2), EnemyType::CursedSpirit);
    let built = card_battler::battle::build_encounter(3, &vec![1, 0]);
    assert_eq!(built.len(), 2);
    assert_eq!((built[0].enemy_type, built[0].id, built[0].hp), (EnemyType::PoisonSpider, 0, 29));
    assert_eq!((built[1].enemy_type, built[1].id, built[1].hp), (EnemyType::DemonicWolf, 1, 43));
    assert!(built.iter().all(|e| e.intent != EnemyIntent::Wait));
    for _ in 0..20 {
        let v = spawn_encounter(0, false);
        assert!((1..=3).contains(&v.len()));
        for (i, e) in v.iter().enumerate() {
            assert_eq!(e.id, i as u32);
            assert!(e.enemy_type != EnemyType::GreatDemon);
            let expected = match e.enemy_type {
                EnemyType::DemonicWolf => 30,
                EnemyType::PoisonSpider => 20,
                _ => 40,
            };
            assert_eq!(e.hp, expected);
            assert!(e.intent != EnemyIntent::Wait);
        }
    }
}

#[test]
fn enemy_turns_are_checked_exactly() {
    let wolf = Enemy::new(0, "狼", 30);
    let player = Player::default();
    assert!(card_battler::battle::act_is_safe(&wolf, &player, None));
    let mut strong = Enemy::new(0, "狼", 30);
    strong.strength = i32::MAX - 5;
    assert!(!card_battler::battle::act_is_safe(&strong, &player, None));
    let mut guarded = Player::default();
    guarded.block = i32::MAX;
    // Only defences can be rolled, so the negative attack range never matters.
    let mut defender = Enemy::new(0, "盾", 30);
    defender.ai_pattern = card_battler::combat::AiPattern::new_random(0, 100, 0, (-10, -10), (1, 2));
    assert!(card_battler::battle::act_is_safe(&defender, &guarded, None));
    let mut striker = Enemy::new(0, "刺", 30);
    striker.ai_pattern = card_battler::combat::AiPattern::new_random(100, 0, 0, (-10, -10), (1, 2));
    assert!(card_battler::battle::act_is_safe(&striker, &guarded, None));
    striker.intent = EnemyIntent::Attack { damage: -10 };
    assert!(!card_battler::battle::act_is_safe(&striker, &guarded, None));
    let demon = Enemy::with_type(0, "魔", 150, EnemyType::GreatDemon);
    assert!(card_battler::battle::act_is_safe(&demon, &player, None));
}

#[test]
fn no_card_is_played_once_the_battle_is_won() {
    let mut player = Player::default();
    let mut hand = Hand::new(10);
    hand.add_card(strike(4));
    let mut draw = DrawPile::new(vec![]);
    let mut discard = DiscardPile::new();
    let mut enemies = vec![Enemy::new(1, "狼", 30)];
    let r = play_card(true, &mut player, &mut hand, &mut draw, &mut discard, &mut enemies, 4, None);
    assert_eq!(r, PlayOutcome::BattleWon);
    assert_eq!((player.energy, hand.len(), enemies[0].hp), (3, 1, 30));
}

#[test]
fn spoils_are_taken_once() {
    let mut p = Player::default();
    let mut c = Cultivation::new();
    let mut fallen = Enemy::new(0, "狼", 30);
    fallen.hp = 0;
    let enemies = vec![fallen];
    let mut won = false;
    let (outcome, gold) = card_battler::battle::settle_battle(&mut p, &mut c, &enemies, &mut won);
    assert_eq!(outcome, CombatOutcome::Victory);
    let gold = gold.expect("the spoils are taken");
    assert!((10..=25).contains(&gold));
    assert!(won);
    assert_eq!((p.gold, c.insight), (100 + gold, 50));
    let again = card_battler::battle::settle_battle(&mut p, &mut c, &enemies, &mut won);
    assert_eq!(again, (CombatOutcome::Victory, None));
    assert_eq!((p.gold, c.insight), (100 + gold, 50));
    let mut q = Player::default();
    q.hp = 0;
    let mut w = false;
    assert_eq!(card_battler::battle::settle_battle(&mut q, &mut c, &enemies, &mut w), (CombatOutcome::Defeat, None));
    assert!(!w);
}

#[test]
fn a_battle_begins_with_a_shuffled_deck_and_an_opening_hand() {
    let deck = create_starting_deck();
    let mut p = Player::default();
    p.energy = 0;
    p.block = 7;
    p.turn = 9;
    let start = card_battler::battle::begin_battle(&deck, &mut p);
    assert_eq!((p.energy, p.block, p.turn), (3, 0, 1));
    assert_eq!((start.hand.len(), start.hand.max_size, start.draw.count), (5, 10, 7));
    assert_eq!(start.discard.count, 0);
    assert!(start.state.cards_drawn_this_turn);
    let mut together = ids(&start.hand.cards);
    together.extend(ids(&start.draw.cards));
    assert_eq!(sorted(together), sorted(ids(&deck)));
}
