use bee_game::card::{ActiveEffect, Card, CardEffect, Effects};
use bee_game::countdown::{Countdown, ProgressBand, TimerMode};
use bee_game::error::ConfigError;

fn once(period: u64) -> Countdown {
    Countdown::new(period, TimerMode::Once).unwrap()
}

fn dot(damage: i32, duration: u64, frequency: u64) -> ActiveEffect {
    CardEffect::DamageOverTime { damage, duration, frequency }.activate()
}

#[test]
fn countdown_rejects_zero_period() {
    assert!(Countdown::new(0, TimerMode::Once).is_none());
    assert!(Countdown::new(0, TimerMode::Repeating).is_none());
    let c = Countdown::new(250, TimerMode::Repeating).unwrap();
    assert_eq!(c.elapsed, 0);
    assert_eq!(c.period, 250);
    assert!(!c.finished());
}

#[test]
fn one_shot_countdown_stays_elapsed() {
    let mut c = once(1000);
    c.tick(400);
    assert_eq!(c.elapsed, 400);
    assert!(!c.finished());
    c.tick(700);
    assert_eq!(c.elapsed, 1000);
    assert!(c.finished());
    c.tick(5000);
    assert_eq!(c.elapsed, 1000);
    assert!(c.finished());
}

#[test]
fn repeating_countdown_wraps() {
    let mut c = Countdown::new(1000, TimerMode::Repeating).unwrap();
    c.tick(2500);
    assert_eq!(c.elapsed, 500);
    assert!(c.finished());
    c.tick(100);
    assert_eq!(c.elapsed, 600);
    assert!(!c.finished());
    c.tick(400);
    assert_eq!(c.elapsed, 0);
    assert!(c.finished());
}

#[test]
fn countdown_handles_huge_steps() {
    let mut c = Countdown::new(7, TimerMode::Repeating).unwrap();
    c.tick(3);
    c.tick(u64::MAX);
    assert_eq!(c.elapsed, ((3u128 + u64::MAX as u128) % 7) as u64);
    assert!(c.finished());
}

#[test]
fn progress_bands() {
    let mut c = Countdown::new(1000, TimerMode::Repeating).unwrap();
    assert_eq!(c.progress_band(), ProgressBand::Low);
    c.tick(299);
    assert_eq!(c.progress_band(), ProgressBand::Low);
    c.tick(1);
    assert_eq!(c.progress_band(), ProgressBand::Mid);
    c.tick(299);
    assert_eq!(c.progress_band(), ProgressBand::Mid);
    c.tick(1);
    assert_eq!(c.progress_band(), ProgressBand::High);
    c.tick(399);
    assert_eq!(c.progress_band(), ProgressBand::High);
}

#[test]
fn card_effect_validation() {
    assert_eq!(CardEffect::DirectDamage(5).validate(), Ok(()));
    assert_eq!(CardEffect::Heal(5).validate(), Ok(()));
    assert_eq!(CardEffect::Stun { duration: 0 }.validate(), Err(ConfigError::ZeroPeriod));
    assert_eq!(
        CardEffect::DamageOverTime { damage: 3, duration: 1000, frequency: 0 }.validate(),
        Err(ConfigError::ZeroPeriod)
    );
    assert_eq!(
        CardEffect::DamageOverTime { damage: 3, duration: 0, frequency: 100 }.validate(),
        Err(ConfigError::ZeroPeriod)
    );
    assert_eq!(Card::new(CardEffect::DirectDamage(5), 0).unwrap_err(), ConfigError::ZeroPeriod);
    assert_eq!(
        Card::new(CardEffect::Stun { duration: 0 }, 1000).unwrap_err(),
        ConfigError::ZeroPeriod
    );
    let card = Card::new(CardEffect::Heal(7), 1500).unwrap();
    assert_eq!(card.effect, CardEffect::Heal(7));
    assert_eq!(card.attack_timer.period, 1500);
    assert_eq!(card.attack_timer.mode, TimerMode::Repeating);
}

#[test]
fn activation_maps_durations_to_countdowns() {
    match dot(4, 3000, 500) {
        ActiveEffect::DamageOverTime { damage, duration, frequency } => {
            assert_eq!(damage, 4);
            assert_eq!(duration.period, 3000);
            assert_eq!(duration.mode, TimerMode::Once);
            assert_eq!(frequency.period, 500);
            assert_eq!(frequency.mode, TimerMode::Repeating);
        }
        other => panic!("unexpected {:?}", other),
    }
    match (CardEffect::Stun { duration: 1200 }).activate() {
        ActiveEffect::Stun { duration } => {
            assert_eq!(duration.period, 1200);
            assert_eq!(duration.mode, TimerMode::Once);
            assert!(!duration.finished());
        }
        other => panic!("unexpected {:?}", other),
    }
    assert_eq!(CardEffect::DirectDamage(9).activate(), ActiveEffect::DirectDamage(9));
    assert_eq!(CardEffect::Heal(6).activate(), ActiveEffect::Heal(6));
}

#[test]
fn sprite_paths_by_kind() {
    assert_eq!(CardEffect::DirectDamage(1).get_sprite_path(), "direct.png");
    assert_eq!(
        CardEffect::DamageOverTime { damage: 1, duration: 2, frequency: 1 }.get_sprite_path(),
        "dot.png"
    );
    assert_eq!(CardEffect::Stun { duration: 1 }.get_sprite_path(), "stun.png");
    assert_eq!(CardEffect::Heal(1).get_sprite_path(), "heal.png");
}

#[test]
fn random_effects_cover_all_kinds_within_ranges() {
    let mut seen = [false; 4];
    for _ in 0..2000 {
        let e = CardEffect::get_random_effect();
        assert_eq!(e.validate(), Ok(()));
        match e {
            CardEffect::DirectDamage(a) => {
                assert!((5..20).contains(&a));
                seen[0] = true;
            }
            CardEffect::DamageOverTime { damage, duration, frequency } => {
                assert!((2..8).contains(&damage));
                assert!((2000..5000).contains(&duration));
                assert!((300..1000).contains(&frequency));
                seen[1] = true;
            }
            CardEffect::Stun { duration } => {
                assert!((1000..3000).contains(&duration));
                seen[2] = true;
            }
            CardEffect::Heal(a) => {
                assert!((5..15).contains(&a));
                seen[3] = true;
            }
        }
    }
    assert_eq!(seen, [true; 4]);
}

#[test]
fn one_shot_effects_apply_once_and_leave() {
    let mut fx = Effects::new();
    fx.add(ActiveEffect::DirectDamage(12));
    fx.add(ActiveEffect::Heal(5));
    let mut health: i32 = 100;
    fx.apply_step(&mut health, 16);
    assert_eq!(health, 93);
    assert!(fx.effects.is_empty());
    fx.apply_step(&mut health, 16);
    assert_eq!(health, 93);
}

#[test]
fn dot_fires_at_its_frequency_then_leaves() {
    let mut fx = Effects::new();
    fx.add(dot(5, 1000, 300));
    let mut health: i32 = 100;
    let mut trace = Vec::new();
    for _ in 0..12 {
        fx.apply_step(&mut health, 100);
        trace.push((health, fx.effects.len()));
    }
    assert_eq!(
        trace,
        vec![
            (100, 1),
            (100, 1),
            (95, 1),
            (95, 1),
            (95, 1),
            (90, 1),
            (90, 1),
            (90, 1),
            (85, 1),
            (85, 0),
            (85, 0),
            (85, 0)
        ]
    );
}

#[test]
fn dot_fire_count_is_floor_of_duration_over_frequency() {
    for (duration, frequency, step) in [(1000u64, 300u64, 100u64), (900, 300, 300), (2000, 700, 50)] {
        let mut fx = Effects::new();
        fx.add(dot(1, duration, frequency));
        let mut health: i32 = 1000;
        let mut elapsed = 0;
        while elapsed < duration {
            fx.apply_step(&mut health, step);
            elapsed += step;
        }
        assert!(fx.effects.is_empty());
        assert_eq!(1000 - health, (duration / frequency) as i32);
    }
}

#[test]
fn dot_with_one_long_step_fires_once() {
    let mut fx = Effects::new();
    fx.add(dot(5, 2000, 300));
    let mut health: i32 = 50;
    fx.apply_step(&mut health, 10_000);
    assert_eq!(health, 45);
    assert!(fx.effects.is_empty());
}

#[test]
fn stun_lasts_its_duration() {
    let mut fx = Effects::new();
    fx.add(ActiveEffect::Stun { duration: once(500) });
    assert!(fx.is_stunned());
    let mut health: i32 = 10;
    fx.apply_step(&mut health, 300);
    assert!(fx.is_stunned());
    fx.apply_step(&mut health, 200);
    assert!(!fx.is_stunned());
    assert!(fx.effects.is_empty());
    assert_eq!(health, 10);
}

#[test]
fn surviving_effects_keep_their_order() {
    let mut fx = Effects::new();
    fx.add(dot(1, 5000, 1000));
    fx.add(ActiveEffect::DirectDamage(3));
    fx.add(ActiveEffect::Stun { duration: once(4000) });
    fx.add(ActiveEffect::Heal(1));
    fx.add(dot(2, 6000, 1000));
    let mut health: i32 = 50;
    fx.apply_step(&mut health, 10);
    assert_eq!(health, 48);
    assert_eq!(fx.effects.len(), 3);
    assert!(matches!(fx.effects[0], ActiveEffect::DamageOverTime { damage: 1, .. }));
    assert!(matches!(fx.effects[1], ActiveEffect::Stun { .. }));
    assert!(matches!(fx.effects[2], ActiveEffect::DamageOverTime { damage: 2, .. }));
}

#[test]
fn health_may_go_negative_and_saturates() {
    let mut fx = Effects::new();
    fx.add(ActiveEffect::DirectDamage(30));
    let mut health: i32 = 10;
    fx.apply_step(&mut health, 1);
    assert_eq!(health, -20);

    fx.add(ActiveEffect::DirectDamage(i32::MAX));
    fx.add(ActiveEffect::DirectDamage(i32::MAX));
    let mut low: i32 = 0;
    fx.apply_step(&mut low, 1);
    assert_eq!(low, i32::MIN);

    fx.add(ActiveEffect::Heal(i32::MAX));
    let mut high: i32 = 5;
    fx.apply_step(&mut high, 1);
    assert_eq!(high, i32::MAX);
}

#[test]
fn effect_draws_map_to_kinds() {
    assert_eq!(CardEffect::effect_from_draws(0, 12, 0, 0), CardEffect::DirectDamage(12));
    assert_eq!(
        CardEffect::effect_from_draws(1, 4, 3000, 500),
        CardEffect::DamageOverTime { damage: 4, duration: 3000, frequency: 500 }
    );
    assert_eq!(CardEffect::effect_from_draws(2, 0, 1500, 0), CardEffect::Stun { duration: 1500 });
    assert_eq!(CardEffect::effect_from_draws(3, 9, 0, 0), CardEffect::Heal(9));
}

#[test]
fn dot_among_other_effects_ends_on_time() {
    let mut fx = Effects::new();
    fx.add(ActiveEffect::Stun { duration: once(10_000) });
    fx.add(dot(2, 1000, 250));
    fx.add(dot(1, 10_000, 10_000));
    let mut health: i32 = 100;
    let mut present = Vec::new();
    for _ in 0..6 {
        fx.apply_step(&mut health, 200);
        present.push(fx.effects.iter().any(|e| matches!(e, ActiveEffect::DamageOverTime { damage: 2, .. })));
    }
    assert_eq!(present, vec![true, true, true, true, false, false]);
    assert_eq!(fx.effects.len(), 2);
    assert_eq!(health, 100 - 2 * 4);
}
