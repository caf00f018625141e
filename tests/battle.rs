use bee_game::battle::{
    loot_item_from_draws, random_enemy_cards, random_player_cards, roll_loot, spawn_new_enemy,
    spawn_player, Game, GamePhase, LootItem, LootKind, LootRarity, StepOutcome,
};
use bee_game::card::{ActiveEffect, Card, CardEffect};
use bee_game::combat::{resolve_step, tick_cards, Combatant};
use bee_game::countdown::{Countdown, TimerMode};
use bee_game::error::ConfigError;
use bee_game::skills::{dodge_chance, effective_damage, roll_damage, Class, Stats};

fn card(effect: CardEffect, period: u64) -> Card {
    Card::new(effect, period).unwrap()
}

fn stun(ms: u64) -> ActiveEffect {
    ActiveEffect::Stun { duration: Countdown::new(ms, TimerMode::Once).unwrap() }
}

fn dot(damage: i32, duration: u64, frequency: u64) -> ActiveEffect {
    CardEffect::DamageOverTime { damage, duration, frequency }.activate()
}

fn item(kind: LootKind, rarity: LootRarity) -> LootItem {
    LootItem { kind, rarity }
}

#[test]
fn spawned_combatants_start_fresh() {
    let p = spawn_player(vec![card(CardEffect::DirectDamage(5), 1000)]);
    assert_eq!(p.health, 100);
    assert_eq!(p.stats.strength, 20);
    assert_eq!(p.stats.agility, 10);
    assert!(p.effects.effects.is_empty());
    assert_eq!(p.cards.len(), 1);
    assert_eq!(p.class, Some(Class::Warrior));
    let e = spawn_new_enemy(vec![]);
    assert_eq!(e.class, None);
    assert_eq!(e.health, 100);
    assert_eq!(e.stats.strength, 10);
    assert!(e.is_alive());
    assert!(!e.is_stunned());
}

#[test]
fn card_fires_on_the_opponent_when_its_countdown_completes() {
    let mut player = spawn_player(vec![card(CardEffect::DirectDamage(7), 1000)]);
    let mut enemy = spawn_new_enemy(vec![]);
    resolve_step(&mut player, &mut enemy, 600);
    assert_eq!(enemy.health, 100);
    assert_eq!(player.cards[0].attack_timer.elapsed, 600);
    resolve_step(&mut player, &mut enemy, 400);
    assert_eq!(enemy.health, 93);
    assert_eq!(player.cards[0].attack_timer.elapsed, 0);
    assert_eq!(player.health, 100);
    assert!(enemy.effects.effects.is_empty());
}

#[test]
fn every_card_targets_the_opponent() {
    let mut player = spawn_player(vec![
        card(CardEffect::Heal(4), 500),
        card(CardEffect::Stun { duration: 2000 }, 500),
    ]);
    let mut enemy = spawn_new_enemy(vec![card(CardEffect::DirectDamage(9), 500)]);
    enemy.health = 50;
    resolve_step(&mut player, &mut enemy, 500);
    // The enemy attacked too: stun status is read at the start of the step.
    assert_eq!(player.health, 91);
    assert_eq!(enemy.health, 54);
    assert!(enemy.is_stunned());
    assert!(!player.is_stunned());
}

#[test]
fn tick_cards_returns_intents_in_card_order() {
    let mut cards = vec![
        card(CardEffect::DirectDamage(1), 100),
        card(CardEffect::Heal(2), 300),
        card(CardEffect::DirectDamage(3), 50),
    ];
    let out = tick_cards(&mut cards, 100);
    assert_eq!(out, vec![ActiveEffect::DirectDamage(1), ActiveEffect::DirectDamage(3)]);
    assert_eq!(cards[1].attack_timer.elapsed, 100);
    assert_eq!(cards[2].attack_timer.elapsed, 0);
}

#[test]
fn stun_freezes_attack_timer_while_dot_keeps_firing() {
    let mut player = spawn_player(vec![card(CardEffect::DirectDamage(10), 1000)]);
    player.effects.add(stun(2000));
    player.effects.add(dot(3, 5000, 400));
    let mut enemy = spawn_new_enemy(vec![]);
    let mut healths = Vec::new();
    for _ in 0..10 {
        resolve_step(&mut player, &mut enemy, 100);
        assert_eq!(player.cards[0].attack_timer.elapsed, 0);
        healths.push(player.health);
    }
    assert!(player.is_stunned());
    assert_eq!(enemy.health, 100);
    assert_eq!(healths, vec![100, 100, 100, 97, 97, 97, 97, 94, 94, 94]);
    // The stun runs out after 2000 ms; from then on the card's countdown runs.
    for _ in 0..10 {
        resolve_step(&mut player, &mut enemy, 100);
    }
    assert!(!player.is_stunned());
    assert_eq!(player.health, 85);
    resolve_step(&mut player, &mut enemy, 100);
    assert_eq!(player.cards[0].attack_timer.elapsed, 100);
}

#[test]
fn fallen_combatant_sends_no_attacks() {
    let mut player = spawn_player(vec![card(CardEffect::DirectDamage(10), 100)]);
    player.health = 0;
    let mut enemy = spawn_new_enemy(vec![]);
    for _ in 0..5 {
        resolve_step(&mut player, &mut enemy, 100);
    }
    assert_eq!(enemy.health, 100);
    assert_eq!(player.cards[0].attack_timer.elapsed, 0);
}

fn duel(player_cards: Vec<Card>, enemy_cards: Vec<Card>) -> Game {
    Game::new(player_cards, enemy_cards)
}

#[test]
fn new_game_is_in_battle() {
    let g = duel(vec![], vec![card(CardEffect::Heal(1), 100)]);
    assert_eq!(g.phase, GamePhase::Battle);
    assert!(g.has_living_enemy());
    assert!(g.loot.is_empty());
    assert!(g.inventory.is_empty());
    let s = Game::start();
    assert_eq!(s.phase, GamePhase::Battle);
    assert!((1..4).contains(&s.player.cards.len()));
    assert!((1..4).contains(&s.enemy.as_ref().unwrap().cards.len()));
}

#[test]
fn enemy_death_leads_to_loot_screen() {
    let mut g = duel(vec![card(CardEffect::DirectDamage(60), 1000)], vec![]);
    assert_eq!(g.battle_step(1000), StepOutcome::Continue);
    assert_eq!(g.enemy.as_ref().unwrap().health, 40);
    assert_eq!(g.battle_step(1000), StepOutcome::EnemyDefeated);
    assert_eq!(g.phase, GamePhase::LootScreen);
    assert!(g.enemy.is_none());
    // Later steps in this phase do nothing.
    assert_eq!(g.battle_step(1000), StepOutcome::Idle);
    assert_eq!(g.player.cards[0].attack_timer.elapsed, 0);
}

#[test]
fn player_death_leads_to_game_over() {
    let mut g = duel(vec![card(CardEffect::DirectDamage(1), 5000)], vec![card(
        CardEffect::DirectDamage(100),
        500,
    )]);
    assert_eq!(g.battle_step(500), StepOutcome::PlayerDefeated);
    assert_eq!(g.phase, GamePhase::GameOver);
    assert_eq!(g.player.health, 0);
    assert!(g.has_living_enemy());
    assert_eq!(g.battle_step(5000), StepOutcome::Idle);
    assert_eq!(g.player.cards[0].attack_timer.elapsed, 500);
    assert_eq!(g.enemy.as_ref().unwrap().health, 100);
}

#[test]
fn both_falling_is_game_over_and_enemy_removed() {
    let mut g = duel(vec![card(CardEffect::DirectDamage(100), 500)], vec![card(
        CardEffect::DirectDamage(100),
        500,
    )]);
    assert_eq!(g.battle_step(500), StepOutcome::PlayerDefeated);
    assert_eq!(g.phase, GamePhase::GameOver);
    assert!(g.enemy.is_none());
}

#[test]
fn advance_rolls_loot_when_enemy_falls() {
    let mut g = duel(vec![card(CardEffect::DirectDamage(100), 100)], vec![]);
    assert_eq!(g.advance(100), StepOutcome::EnemyDefeated);
    assert_eq!(g.loot.len(), 10);
    assert_eq!(roll_loot().len(), 10);
}

#[test]
fn loot_all_moves_every_item_and_reenters_battle() {
    let mut g = duel(vec![card(CardEffect::DirectDamage(100), 100)], vec![]);
    g.inventory.push(item(LootKind::MagicSword, LootRarity::Epic));
    assert_eq!(g.battle_step(100), StepOutcome::EnemyDefeated);
    let a = item(LootKind::HealthPotion, LootRarity::Common);
    let b = item(LootKind::AncientRelic, LootRarity::Rare);
    let c = item(LootKind::HealthPotion, LootRarity::Common);
    g.spawn_loot_screen(vec![a, b, c]);
    assert_eq!(g.loot.len(), 3);
    g.handle_loot_all_with(vec![card(CardEffect::Heal(2), 700)]);
    assert_eq!(g.phase, GamePhase::Battle);
    assert!(g.loot.is_empty());
    assert_eq!(g.inventory, vec![item(LootKind::MagicSword, LootRarity::Epic), a, b, c]);
    let e = g.enemy.as_ref().unwrap();
    assert_eq!(e.health, 100);
    assert_eq!(e.cards.len(), 1);
}

#[test]
fn loot_all_with_random_enemy() {
    let mut g = duel(vec![card(CardEffect::DirectDamage(100), 100)], vec![]);
    assert_eq!(g.advance(100), StepOutcome::EnemyDefeated);
    g.handle_loot_all();
    assert_eq!(g.phase, GamePhase::Battle);
    assert_eq!(g.inventory.len(), 10);
    assert!(g.has_living_enemy());
}

#[test]
fn loot_all_outside_loot_screen_is_ignored() {
    let mut g = duel(vec![], vec![]);
    g.loot.push(item(LootKind::MagicSword, LootRarity::Rare));
    g.handle_loot_all_with(vec![]);
    assert_eq!(g.phase, GamePhase::Battle);
    assert!(g.inventory.is_empty());
    assert_eq!(g.loot.len(), 1);
}

#[test]
fn reentering_battle_with_living_enemy_is_noop() {
    let mut g = duel(vec![], vec![card(CardEffect::Heal(3), 900)]);
    g.on_enter_battle_with(vec![card(CardEffect::DirectDamage(1), 100)]);
    g.on_enter_battle();
    let e = g.enemy.as_ref().unwrap();
    assert_eq!(e.cards.len(), 1);
    assert_eq!(e.cards[0].effect, CardEffect::Heal(3));
}

#[test]
fn battle_entry_without_enemy_spawns_one() {
    let mut g = duel(vec![card(CardEffect::DirectDamage(100), 100)], vec![]);
    g.battle_step(100);
    assert!(g.enemy.is_none());
    g.on_enter_battle_with(vec![card(CardEffect::Heal(3), 900)]);
    assert!(g.has_living_enemy());
    g.on_enter_battle_with(vec![]);
    assert_eq!(g.enemy.as_ref().unwrap().cards.len(), 1);
}

#[test]
fn inventory_key_swaps_battle_and_menu_only() {
    let mut g = duel(vec![card(CardEffect::DirectDamage(1), 100)], vec![]);
    g.toggle_ui();
    assert_eq!(g.phase, GamePhase::Menu);
    // The battle is paused in the menu.
    assert_eq!(g.battle_step(100), StepOutcome::Idle);
    assert_eq!(g.enemy.as_ref().unwrap().health, 100);
    g.toggle_ui();
    assert_eq!(g.phase, GamePhase::Battle);
    g.phase = GamePhase::LootScreen;
    g.toggle_ui();
    assert_eq!(g.phase, GamePhase::LootScreen);
}

#[test]
fn new_run_restores_health() {
    let mut g = duel(vec![], vec![card(CardEffect::DirectDamage(150), 100)]);
    assert_eq!(g.battle_step(100), StepOutcome::PlayerDefeated);
    g.new_run_with(vec![]);
    assert_eq!(g.phase, GamePhase::Battle);
    assert_eq!(g.player.health, 100);
    assert_eq!(g.enemy.as_ref().unwrap().cards.len(), 1);
    g.new_run();
    assert_eq!(g.phase, GamePhase::Battle);
}

#[test]
fn new_run_after_double_fall_spawns_enemy() {
    let mut g = duel(vec![card(CardEffect::DirectDamage(100), 100)], vec![card(
        CardEffect::DirectDamage(100),
        100,
    )]);
    assert_eq!(g.battle_step(100), StepOutcome::PlayerDefeated);
    g.new_run();
    assert_eq!(g.player.health, 100);
    assert!(g.has_living_enemy());
}

#[test]
fn random_cards_have_catalogue_periods() {
    for _ in 0..200 {
        let pc = random_player_cards();
        assert!((1..4).contains(&pc.len()));
        for c in &pc {
            assert!((1000..3000).contains(&c.attack_timer.period));
            assert_eq!(c.attack_timer.elapsed, 0);
        }
        let ec = random_enemy_cards();
        assert!((1..4).contains(&ec.len()));
        for c in &ec {
            assert_eq!(c.attack_timer.period, 3000);
        }
    }
}

#[test]
fn loot_names() {
    assert_eq!(item(LootKind::HealthPotion, LootRarity::Common).name(), "Health Potion");
    assert_eq!(item(LootKind::MagicSword, LootRarity::Rare).name(), "Magic Sword");
    assert_eq!(item(LootKind::AncientRelic, LootRarity::Epic).name(), "Ancient Relic");
}

#[test]
fn stats_reject_zero_agility() {
    assert_eq!(Stats::new(1, 0, 1, 1, 1), Err(ConfigError::ZeroAgility));
    let s = Stats::new(3, 4, 5, 6, 7).unwrap();
    assert_eq!((s.strength, s.agility, s.intelligence), (3, 4, 7));
}

#[test]
fn dodge_chance_is_fixed_by_agility() {
    let a = Stats::new(20, 10, 1, 1, 1).unwrap();
    let d = Stats::new(1, 10, 9, 9, 9).unwrap();
    assert_eq!(dodge_chance(&a, &d), 100);
    let d2 = Stats::new(50, 25, 0, 0, 0).unwrap();
    assert_eq!(dodge_chance(&a, &d2), 250);
    let weak = Stats::new(1, 1, 1, 1, 1).unwrap();
    let nimble = Stats::new(1, 300, 1, 1, 1).unwrap();
    assert_eq!(dodge_chance(&weak, &nimble), 1000);
    let quick = Stats::new(1, 3, 1, 1, 1).unwrap();
    assert_eq!(dodge_chance(&quick, &weak), 33);
}

#[test]
fn effective_damage_formula() {
    let a = Stats::new(20, 10, 1, 1, 1).unwrap();
    let d = Stats::new(1, 10, 1, 1, 1).unwrap();
    assert_eq!(effective_damage(10, &a, &d, 99), 0);
    assert_eq!(effective_damage(10, &a, &d, 100), 20);
    assert_eq!(effective_damage(10, &a, &d, 999), 20);
    let d3 = Stats::new(1, 3, 1, 1, 1).unwrap();
    assert_eq!(effective_damage(10, &a, &d3, 999), 66);
    let strong = Stats::new(usize::MAX, 1, 1, 1, 1).unwrap();
    let one = Stats::new(1, 1, 1, 1, 1).unwrap();
    assert_eq!(
        effective_damage(u64::MAX, &strong, &one, 999),
        u64::MAX as u128 * usize::MAX as u128
    );
}

#[test]
fn dodge_rate_converges() {
    let a = Stats::new(20, 10, 1, 1, 1).unwrap();
    let d = Stats::new(1, 20, 1, 1, 1).unwrap();
    assert_eq!(dodge_chance(&a, &d), 200);
    let n = 40_000;
    let mut hits = 0;
    for _ in 0..n {
        let dmg = roll_damage(10, &a, &d);
        assert!(dmg == 0 || dmg == 10);
        if dmg > 0 {
            hits += 1;
        }
    }
    let rate = hits as f64 / n as f64;
    assert!((rate - 0.8).abs() < 0.02, "rate {}", rate);
}

#[test]
fn combatant_built_from_parts() {
    let s = Stats::new(1, 2, 3, 4, 5).unwrap();
    let c = Combatant::new(s, Some(Class::Mage), 42, vec![]);
    assert_eq!(c.health, 42);
    assert_eq!(c.class, Some(Class::Mage));
    assert!(c.is_alive());
    let dead = Combatant::new(s, None, 0, vec![]);
    assert!(!dead.is_alive());
}

#[test]
fn loot_draws_map_to_items() {
    let rarities = [LootRarity::Common, LootRarity::Rare, LootRarity::Epic];
    let kinds = [LootKind::HealthPotion, LootKind::MagicSword, LootKind::AncientRelic];
    for r in 0..3u64 {
        for k in 0..3u64 {
            assert_eq!(loot_item_from_draws(r, k), item(kinds[k as usize], rarities[r as usize]));
        }
    }
    assert_eq!(loot_item_from_draws(2, 0).name(), "Health Potion");
}

#[test]
fn loot_rolls_vary() {
    let mut kinds = std::collections::HashSet::new();
    let mut rarities = std::collections::HashSet::new();
    for _ in 0..50 {
        for it in roll_loot() {
            kinds.insert(format!("{:?}", it.kind));
            rarities.insert(format!("{:?}", it.rarity));
        }
    }
    assert_eq!(kinds.len(), 3);
    assert_eq!(rarities.len(), 3);
}
