use card_battler::combat::{
    AiPattern, CombatConfig, CombatState, Enemy, EnemyAffix, EnemyIntent, EnemyType, Environment,
    Player, TurnPhase,
};

fn player() -> Player {
    Player::default()
}

#[test]
fn default_player_and_settings() {
    let p = player();
    assert_eq!((p.hp, p.max_hp, p.energy, p.max_energy, p.block, p.gold, p.turn), (80, 80, 3, 3, 0, 100, 1));
    let c = CombatConfig::default();
    assert_eq!((c.base_energy, c.initial_hp), (3, 80));
    let s = CombatState::default();
    assert_eq!(s.phase, TurnPhase::PlayerStart);
    assert!(!s.cards_drawn_this_turn);
}

#[test]
fn environments_scale_by_percent() {
    let calm = Environment::default();
    assert_eq!((calm.damage_modifier, calm.block_modifier), (100, 100));
    assert_eq!(calm.name, "常态");
    let storm = Environment::thunder_storm();
    assert_eq!((storm.damage_modifier, storm.block_modifier), (120, 100));
    let fog = Environment::thick_fog();
    assert_eq!((fog.damage_modifier, fog.block_modifier), (100, 120));
}

#[test]
fn sword_intent_caps_at_five_and_adds_damage() {
    let mut p = player();
    p.add_sword_intent(3);
    assert_eq!(p.get_intent_damage_bonus(), 2);
    p.add_sword_intent(10);
    assert_eq!(p.sword_intent, 5);
    assert_eq!(p.get_intent_damage_bonus(), 5);
    assert_eq!(p.calculate_outgoing_damage(6), 11);
    p.reset_sword_intent();
    assert_eq!(p.sword_intent, 0);
    assert_eq!(p.calculate_outgoing_damage(6), 6);
}

#[test]
fn weakness_cuts_damage_to_three_quarters() {
    let mut p = player();
    p.weakness = 1;
    assert_eq!(p.calculate_outgoing_damage(10), 7);
    assert_eq!(p.calculate_outgoing_damage(-10), -7);
    let storm = Environment::thunder_storm();
    assert_eq!(p.calculate_outgoing_damage_with_env(10, Some(&storm)), 8);
    p.weakness = 0;
    assert_eq!(p.calculate_outgoing_damage_with_env(10, Some(&storm)), 12);
}

#[test]
fn vulnerability_raises_damage_taken_by_half() {
    let mut p = player();
    p.vulnerable = 2;
    assert_eq!(p.calculate_incoming_damage(7), 10);
    assert_eq!(p.calculate_incoming_damage(i32::MAX), i32::MAX);
}

#[test]
fn block_absorbs_before_hit_points() {
    let mut p = player();
    p.gain_block(5);
    p.take_damage(3);
    assert_eq!((p.hp, p.block), (80, 2));
    p.take_damage(10);
    assert_eq!((p.hp, p.block), (72, 0));
    p.take_damage(500);
    assert_eq!(p.hp, 0);
}

#[test]
fn hits_never_heal_on_concrete_values() {
    // Block soaks the hit first; hit points stop at zero.
    let mut p = player();
    p.hp = 5;
    p.block = 4;
    p.take_damage(20);
    assert_eq!((p.hp, p.block), (0, 0));
}

#[test]
fn healing_stops_at_the_maximum() {
    let mut p = player();
    p.hp = 70;
    p.heal(5);
    assert_eq!(p.hp, 75);
    p.heal(50);
    assert_eq!(p.hp, 80);
}

#[test]
fn block_in_fog_is_raised_by_a_fifth() {
    let mut p = player();
    let fog = Environment::thick_fog();
    p.gain_block_with_env(10, Some(&fog));
    assert_eq!(p.block, 12);
    p.clear_block();
    assert_eq!(p.block, 0);
}

#[test]
fn energy_is_spent_only_when_there_is_enough() {
    let mut p = player();
    assert!(p.use_energy(2));
    assert_eq!(p.energy, 1);
    assert!(!p.use_energy(2));
    assert_eq!(p.energy, 1);
    p.gain_energy(4);
    assert_eq!(p.energy, 5);
    p.start_turn();
    assert_eq!((p.energy, p.turn), (3, 2));
}

#[test]
fn enemies_start_fresh() {
    let e = Enemy::with_type(7, "剧毒蛛", 20, EnemyType::PoisonSpider);
    assert_eq!((e.id, e.hp, e.max_hp, e.block, e.strength), (7, 20, 20, 0, 0));
    assert_eq!(e.intent, EnemyIntent::Wait);
    assert_eq!(e.ai_pattern.seal_chance, 20);
    let wolf = Enemy::new(1, "狼", 30);
    assert_eq!(wolf.enemy_type, EnemyType::DemonicWolf);
    assert_eq!(wolf.ai_pattern.attack_chance, 70);
}

#[test]
fn charged_enemies_hit_twice_as_hard() {
    let mut e = Enemy::with_type(0, "魔", 150, EnemyType::GreatDemon);
    assert_eq!(e.calculate_outgoing_damage(10), 10);
    e.is_charged = true;
    assert_eq!(e.calculate_outgoing_damage(10), 20);
    e.weakness = 1;
    assert_eq!(e.calculate_outgoing_damage(10), 14);
    e.consume_charge();
    assert!(!e.is_charged);
    assert_eq!(e.calculate_outgoing_damage(10), 7);
}

#[test]
fn enemy_damage_and_death() {
    let mut e = Enemy::new(0, "狼", 30);
    e.block = 5;
    e.take_damage(8);
    assert_eq!((e.hp, e.block), (27, 0));
    assert!(!e.is_dead());
    e.take_damage(100);
    assert_eq!(e.hp, 0);
    assert!(e.is_dead());
}

#[test]
fn great_demon_cycles_its_sequence() {
    let mut e = Enemy::with_type(0, "魔", 150, EnemyType::GreatDemon);
    e.start_turn();
    assert_eq!(e.intent, EnemyIntent::Attack { damage: 15 });
    assert_eq!(e.execute_intent(), EnemyIntent::Attack { damage: 15 });
    e.start_turn();
    assert_eq!(e.intent, EnemyIntent::Defend { block: 12 });
    e.execute_intent();
    assert_eq!(e.block, 12);
    assert!(e.is_charged);
    e.start_turn();
    assert_eq!(e.block, 0);
    assert_eq!(e.intent, EnemyIntent::Attack { damage: 28 });
    e.start_turn();
    assert_eq!(e.intent, EnemyIntent::Wait);
    e.start_turn();
    assert_eq!(e.intent, EnemyIntent::Attack { damage: 15 });
}

#[test]
fn great_demon_rages_below_half_health() {
    let mut e = Enemy::with_type(0, "魔", 150, EnemyType::GreatDemon);
    e.strength = 2;
    e.hp = 74;
    e.start_turn();
    assert_eq!(e.ai_pattern.sequence.len(), 3);
    assert_eq!(e.intent, EnemyIntent::Attack { damage: 37 });
    e.start_turn();
    assert_eq!(e.intent, EnemyIntent::Buff { strength: 8 });
    e.execute_intent();
    assert_eq!(e.strength, 10);
}

#[test]
fn rolled_intents_stay_within_their_ranges() {
    let mut p = AiPattern::demonic_wolf();
    for roll in 0..100u64 {
        let i = p.next_intent(roll, 1);
        match i {
            EnemyIntent::Attack { damage } => {
                assert!(roll < 70);
                assert!((9..=13).contains(&damage));
            }
            EnemyIntent::Defend { block } => {
                assert!((70..80).contains(&roll));
                assert!((3..=5).contains(&block));
            }
            EnemyIntent::Buff { strength } => {
                assert!(roll >= 80);
                assert!((1..=3).contains(&strength));
            }
            other => panic!("unexpected intent {:?}", other),
        }
    }
    let mut spider = AiPattern::poison_spider();
    assert_eq!(spider.next_intent(60, 0), EnemyIntent::Debuff { poison: 2, weakness: 1 });
    match spider.next_intent(95, 0) {
        EnemyIntent::Seal { slot_index, duration } => {
            assert!(slot_index < 5);
            assert_eq!(duration, 2);
        }
        other => panic!("unexpected intent {:?}", other),
    }
    let mut spirit = AiPattern::cursed_spirit();
    assert_eq!(spirit.next_intent(70, 0), EnemyIntent::Curse { card_id: 500 });
    let mut custom = AiPattern::new_random(10, 0, 0, (4, 6), (1, 2));
    assert_eq!(custom.next_intent(50, 3), EnemyIntent::Attack { damage: 7 });
    assert_eq!(custom.buff_range, (1, 3));
}

#[test]
fn attack_affixes_apply_statuses() {
    let mut e = Enemy::new(0, "狼", 30);
    e.affixes = vec![EnemyAffix::Fire, EnemyAffix::Poison, EnemyAffix::Ice, EnemyAffix::Fire, EnemyAffix::Swift];
    let mut p = player();
    e.apply_attack_affixes(&mut p);
    assert_eq!((p.burn, p.poison, p.weakness), (6, 2, 1));
}

#[test]
fn affixes_and_patterns_by_kind() {
    assert_eq!(AiPattern::from_enemy_type(EnemyType::CursedSpirit).curse_chance, 40);
    assert_eq!(AiPattern::great_demon().sequence.len(), 4);
    let ev = card_battler::combat::EnemyAttackEvent::new(9, true);
    assert_eq!((ev.damage, ev.block_broken), (9, true));
}
