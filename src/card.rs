//! Cards, the effects they carry, and the effects active on a combatant.
use vstd::prelude::*;
use crate::countdown::{Countdown, TimerMode};
use crate::error::ConfigError;
use crate::random::random_in;

verus! {

/// Lower bound of a random direct-damage amount.
pub const DIRECT_DAMAGE_MIN: u64 = 5;

/// Exclusive upper bound of a random direct-damage amount.
pub const DIRECT_DAMAGE_MAX: u64 = 20;

/// Lower bound of a random damage-over-time amount.
pub const DOT_DAMAGE_MIN: u64 = 2;

/// Exclusive upper bound of a random damage-over-time amount.
pub const DOT_DAMAGE_MAX: u64 = 8;

/// Lower bound, in milliseconds, of a random damage-over-time duration.
pub const DOT_DURATION_MIN: u64 = 2000;

/// Exclusive upper bound, in milliseconds, of a random damage-over-time duration.
pub const DOT_DURATION_MAX: u64 = 5000;

/// Lower bound, in milliseconds, of a random damage-over-time frequency.
pub const DOT_FREQUENCY_MIN: u64 = 300;

/// Exclusive upper bound, in milliseconds, of a random damage-over-time frequency.
pub const DOT_FREQUENCY_MAX: u64 = 1000;

/// Lower bound, in milliseconds, of a random stun duration.
pub const STUN_DURATION_MIN: u64 = 1000;

/// Exclusive upper bound, in milliseconds, of a random stun duration.
pub const STUN_DURATION_MAX: u64 = 3000;

/// Lower bound of a random heal amount.
pub const HEAL_MIN: u64 = 5;

/// Exclusive upper bound of a random heal amount.
pub const HEAL_MAX: u64 = 15;

/// What a card does when its attack countdown completes. Durations and
/// frequencies are in milliseconds.
#[derive(Clone, Copy, Debug, PartialEq, Eq, Structural)]
pub enum CardEffect {
    DirectDamage(i32),
    DamageOverTime { damage: i32, duration: u64, frequency: u64 },
    Stun { duration: u64 },
    Heal(i32),
}

/// Kinds of status a combatant may suffer.
#[derive(Clone, Copy, Debug, PartialEq, Eq, Structural)]
pub enum StatusEffect {
    Bleed,
    Poison,
    Burn,
    Freeze,
    Shock,
    Stun,
    Silence,
    Disarm,
}

/// Elemental affinities.
#[derive(Clone, Copy, Debug, PartialEq, Eq, Structural)]
pub enum Element {
    Fire,
    Water,
    Earth,
    Air,
    Light,
}

/// A card effect instantiated on a target, with live countdowns.
#[derive(Clone, Copy, Debug, PartialEq, Eq, Structural)]
pub enum ActiveEffect {
    /// Applied once, then dropped.
    DirectDamage(i32),
    /// `damage` is dealt each time `frequency` completes a cycle, until
    /// `duration` has elapsed.
    DamageOverTime { damage: i32, duration: Countdown, frequency: Countdown },
    /// Stuns its owner until `duration` has elapsed.
    Stun { duration: Countdown },
    /// Applied once, then dropped.
    Heal(i32),
}

/// The effects active on one combatant, in the order they were applied.
#[derive(Debug)]
pub struct Effects {
    pub effects: Vec<ActiveEffect>,
}

/// A fresh one-shot countdown of `period` milliseconds.
pub open spec fn fresh_once(period: u64) -> Countdown {
    Countdown { elapsed: 0, period, mode: TimerMode::Once, finished: false }
}

/// A fresh repeating countdown of `period` milliseconds.
pub open spec fn fresh_repeating(period: u64) -> Countdown {
    Countdown { elapsed: 0, period, mode: TimerMode::Repeating, finished: false }
}

/// `x` saturated to the range of `i32`.
pub open spec fn clamp_i32(x: int) -> int {
    if x < i32::MIN {
        i32::MIN as int
    } else if x > i32::MAX {
        i32::MAX as int
    } else {
        x
    }
}

/// The effect that a kind draw and its parameter draws give: kind 0 is
/// direct damage of `amount`, 1 damage over time of `amount` per cycle, 2 a
/// stun, 3 a heal of `amount`.
pub open spec fn effect_of_draws(kind: u64, amount: u64, duration: u64, frequency: u64) -> CardEffect {
    if kind == 0 {
        CardEffect::DirectDamage(amount as i32)
    } else if kind == 1 {
        CardEffect::DamageOverTime { damage: amount as i32, duration, frequency }
    } else if kind == 2 {
        CardEffect::Stun { duration }
    } else {
        CardEffect::Heal(amount as i32)
    }
}

/// A kind draw in `0..4` whose parameter draws lie in the catalogue's ranges
/// for that kind.
pub open spec fn draws_in_catalogue(kind: u64, amount: u64, duration: u64, frequency: u64) -> bool {
    &&& kind < 4
    &&& kind == 0 ==> DIRECT_DAMAGE_MIN <= amount < DIRECT_DAMAGE_MAX
    &&& kind == 1 ==> {
        &&& DOT_DAMAGE_MIN <= amount < DOT_DAMAGE_MAX
        &&& DOT_DURATION_MIN <= duration < DOT_DURATION_MAX
        &&& DOT_FREQUENCY_MIN <= frequency < DOT_FREQUENCY_MAX
    }
    &&& kind == 2 ==> STUN_DURATION_MIN <= duration < STUN_DURATION_MAX
    &&& kind == 3 ==> HEAL_MIN <= amount < HEAL_MAX
}

/// An effect that some catalogue draws give.
pub open spec fn drawn_effect(e: CardEffect) -> bool {
    exists|kind: u64, amount: u64, duration: u64, frequency: u64|
        draws_in_catalogue(kind, amount, duration, frequency) && e == #[trigger] effect_of_draws(
            kind,
            amount,
            duration,
            frequency,
        )
}

impl CardEffect {
    /// Every countdown that the effect would start has a positive period.
    pub open spec fn wf(self) -> bool {
        match self {
            CardEffect::DamageOverTime { duration, frequency, .. } => duration > 0 && frequency
                > 0,
            CardEffect::Stun { duration } => duration > 0,
            _ => true,
        }
    }

    /// The effect lies in the ranges that random cards are drawn from.
    pub open spec fn in_catalogue(self) -> bool {
        match self {
            CardEffect::DirectDamage(a) => DIRECT_DAMAGE_MIN <= a < DIRECT_DAMAGE_MAX,
            CardEffect::DamageOverTime { damage, duration, frequency } => {
                &&& DOT_DAMAGE_MIN <= damage < DOT_DAMAGE_MAX
                &&& DOT_DURATION_MIN <= duration < DOT_DURATION_MAX
                &&& DOT_FREQUENCY_MIN <= frequency < DOT_FREQUENCY_MAX
            },
            CardEffect::Stun { duration } => STUN_DURATION_MIN <= duration < STUN_DURATION_MAX,
            CardEffect::Heal(a) => HEAL_MIN <= a < HEAL_MAX,
        }
    }

    /// The active effect that the card starts on its target: durations
    /// become one-shot countdowns and the frequency a repeating one.
    pub open spec fn activated(self) -> ActiveEffect {
        match self {
            CardEffect::DirectDamage(a) => ActiveEffect::DirectDamage(a),
            CardEffect::DamageOverTime { damage, duration, frequency } => {
                ActiveEffect::DamageOverTime {
                    damage,
                    duration: fresh_once(duration),
                    frequency: fresh_repeating(frequency),
                }
            },
            CardEffect::Stun { duration } => ActiveEffect::Stun { duration: fresh_once(duration) },
            CardEffect::Heal(a) => ActiveEffect::Heal(a),
        }
    }

    /// The image that shows the effect's kind.
    pub open spec fn sprite_path_of(self) -> Seq<char> {
        match self {
            CardEffect::DirectDamage(_) => "direct.png"@,
            CardEffect::DamageOverTime { .. } => "dot.png"@,
            CardEffect::Stun { .. } => "stun.png"@,
            CardEffect::Heal(_) => "heal.png"@,
        }
    }

    /// Checks that every countdown the effect would start has a positive period.
    pub fn validate(&self) -> (r: Result<(), ConfigError>)
        ensures
            r is Ok <==> self.wf(),
            r matches Err(e) ==> e == ConfigError::ZeroPeriod,
    {
        match self {
            CardEffect::DamageOverTime { duration, frequency, .. } => {
                if *duration == 0 || *frequency == 0 {
                    Err(ConfigError::ZeroPeriod)
                } else {
                    Ok(())
                }
            },
            CardEffect::Stun { duration } => {
                if *duration == 0 {
                    Err(ConfigError::ZeroPeriod)
                } else {
                    Ok(())
                }
            },
            _ => Ok(()),
        }
    }

    /// The effect that a kind draw in `0..4` and its parameter draws give:
    /// direct damage, damage over time, stun or heal, in that order.
    pub fn effect_from_draws(kind: u64, amount: u64, duration: u64, frequency: u64) -> (r:
        CardEffect)
        requires
            kind < 4,
            amount <= i32::MAX,
        ensures
            r == effect_of_draws(kind, amount, duration, frequency),
    {
        if kind == 0 {
            CardEffect::DirectDamage(amount as i32)
        } else if kind == 1 {
            CardEffect::DamageOverTime { damage: amount as i32, duration, frequency }
        } else if kind == 2 {
            CardEffect::Stun { duration }
        } else {
            CardEffect::Heal(amount as i32)
        }
    }

    /// Draws one of the four kinds uniformly, then its parameters from the
    /// catalogue's ranges for that kind.
    pub fn get_random_effect() -> (r: CardEffect)
        ensures
            drawn_effect(r),
            r.wf(),
            r.in_catalogue(),
    {
        let kind = random_in(0, 4);
        let mut amount: u64 = 0;
        let mut duration: u64 = 0;
        let mut frequency: u64 = 0;
        if kind == 0 {
            amount = random_in(DIRECT_DAMAGE_MIN, DIRECT_DAMAGE_MAX);
        } else if kind == 1 {
            amount = random_in(DOT_DAMAGE_MIN, DOT_DAMAGE_MAX);
            duration = random_in(DOT_DURATION_MIN, DOT_DURATION_MAX);
            frequency = random_in(DOT_FREQUENCY_MIN, DOT_FREQUENCY_MAX);
        } else if kind == 2 {
            duration = random_in(STUN_DURATION_MIN, STUN_DURATION_MAX);
        } else {
            amount = random_in(HEAL_MIN, HEAL_MAX);
        }
        let r = CardEffect::effect_from_draws(kind, amount, duration, frequency);
        assert(draws_in_catalogue(kind, amount, duration, frequency));
        r
    }

    /// The image that shows the effect's kind.
    pub fn get_sprite_path(&self) -> (r: String)
        ensures
            r@ == self.sprite_path_of(),
    {
        let s = match self {
            CardEffect::DirectDamage(_) => "direct.png",
            CardEffect::DamageOverTime { .. } => "dot.png",
            CardEffect::Stun { .. } => "stun.png",
            CardEffect::Heal(_) => "heal.png",
        };
        s.to_owned()
    }

    /// Instantiates the effect on a target.
    pub fn activate(&self) -> (r: ActiveEffect)
        requires
            self.wf(),
        ensures
            r == self.activated(),
            r.wf(),
    {
        match *self {
            CardEffect::DirectDamage(a) => ActiveEffect::DirectDamage(a),
            CardEffect::DamageOverTime { damage, duration, frequency } => {
                ActiveEffect::DamageOverTime {
                    damage,
                    duration: Countdown {
                        elapsed: 0,
                        period: duration,
                        mode: TimerMode::Once,
                        finished: false,
                    },
                    frequency: Countdown {
                        elapsed: 0,
                        period: frequency,
                        mode: TimerMode::Repeating,
                        finished: false,
                    },
                }
            },
            CardEffect::Stun { duration } => ActiveEffect::Stun {
                duration: Countdown {
                    elapsed: 0,
                    period: duration,
                    mode: TimerMode::Once,
                    finished: false,
                },
            },
            CardEffect::Heal(a) => ActiveEffect::Heal(a),
        }
    }
}

impl ActiveEffect {
    /// Countdowns well formed, with the one-shot and repeating modes in place.
    pub open spec fn wf(self) -> bool {
        match self {
            ActiveEffect::DamageOverTime { duration, frequency, .. } => {
                &&& duration.wf()
                &&& duration.mode == TimerMode::Once
                &&& frequency.wf()
                &&& frequency.mode == TimerMode::Repeating
            },
            ActiveEffect::Stun { duration } => duration.wf() && duration.mode == TimerMode::Once,
            _ => true,
        }
    }

    /// The effect after its countdowns have run `delta` more milliseconds.
    pub open spec fn ticked(self, delta: nat) -> ActiveEffect {
        match self {
            ActiveEffect::DamageOverTime { damage, duration, frequency } => {
                ActiveEffect::DamageOverTime {
                    damage,
                    duration: duration.ticked(delta),
                    frequency: frequency.ticked(delta),
                }
            },
            ActiveEffect::Stun { duration } => ActiveEffect::Stun {
                duration: duration.ticked(delta),
            },
            _ => self,
        }
    }

    /// What a just-ticked effect does to its owner's health.
    pub open spec fn health_change(self) -> int {
        match self {
            ActiveEffect::DirectDamage(a) => -a,
            ActiveEffect::DamageOverTime { damage, frequency, .. } => if frequency.finished {
                -damage
            } else {
                0
            },
            ActiveEffect::Stun { .. } => 0,
            ActiveEffect::Heal(a) => a as int,
        }
    }

    /// Whether a just-ticked effect stays for the next step: one-shot effects
    /// never do, timed ones until their duration has elapsed.
    pub open spec fn persists(self) -> bool {
        match self {
            ActiveEffect::DamageOverTime { duration, .. } => !duration.finished,
            ActiveEffect::Stun { duration } => !duration.finished,
            _ => false,
        }
    }

    /// A stun whose duration has not elapsed.
    pub open spec fn is_active_stun(self) -> bool {
        self matches ActiveEffect::Stun { duration } && !duration.finished
    }

    /// Runs the effect's countdowns `delta` more milliseconds.
    pub fn tick(&mut self, delta: u64)
        requires
            old(self).wf(),
        ensures
            *final(self) == old(self).ticked(delta as nat),
            final(self).wf(),
    {
        match self {
            ActiveEffect::DamageOverTime { duration, frequency, .. } => {
                duration.tick(delta);
                frequency.tick(delta);
            },
            ActiveEffect::Stun { duration } => {
                duration.tick(delta);
            },
            _ => {},
        }
    }

    /// See [`ActiveEffect::health_change`].
    pub fn health_delta(&self) -> (r: i64)
        ensures
            r == self.health_change(),
    {
        match *self {
            ActiveEffect::DirectDamage(a) => -(a as i64),
            ActiveEffect::DamageOverTime { damage, frequency, .. } => {
                if frequency.finished {
                    -(damage as i64)
                } else {
                    0
                }
            },
            ActiveEffect::Stun { .. } => 0,
            ActiveEffect::Heal(a) => a as i64,
        }
    }

    /// See [`ActiveEffect::persists`].
    pub fn stays(&self) -> (r: bool)
        ensures
            r == self.persists(),
    {
        match self {
            ActiveEffect::DamageOverTime { duration, .. } => !duration.finished,
            ActiveEffect::Stun { duration } => !duration.finished,
            _ => false,
        }
    }

    /// See [`ActiveEffect::is_active_stun`].
    pub fn stuns(&self) -> (r: bool)
        ensures
            r == self.is_active_stun(),
    {
        match self {
            ActiveEffect::Stun { duration } => !duration.finished,
            _ => false,
        }
    }
}

/// Every element of `s` is a well-formed effect.
pub open spec fn effects_wf(s: Seq<ActiveEffect>) -> bool {
    forall|i: int| 0 <= i < s.len() ==> (#[trigger] s[i]).wf()
}

/// Whether a list of effects holds a stun whose duration has not elapsed.
pub open spec fn stunned_in(s: Seq<ActiveEffect>) -> bool {
    exists|i: int| 0 <= i < s.len() && #[trigger] s[i].is_active_stun()
}

/// The effects that survive one step of `delta` milliseconds, ticked, in
/// the order they had.
pub open spec fn survivors(s: Seq<ActiveEffect>, delta: nat) -> Seq<ActiveEffect>
    decreases s.len(),
{
    if s.len() == 0 {
        Seq::empty()
    } else {
        let rest = survivors(s.drop_last(), delta);
        let e = s.last().ticked(delta);
        if e.persists() {
            rest.push(e)
        } else {
            rest
        }
    }
}

/// The owner's health after one step of `delta` milliseconds over `s`,
/// each change applied in order and saturated to `i32`.
pub open spec fn health_after(h: int, s: Seq<ActiveEffect>, delta: nat) -> int
    decreases s.len(),
{
    if s.len() == 0 {
        h
    } else {
        clamp_i32(health_after(h, s.drop_last(), delta) + s.last().ticked(delta).health_change())
    }
}

/// `h + d` saturated to `i32`.
pub fn add_clamped(h: i32, d: i64) -> (r: i32)
    requires
        i32::MIN <= d <= -(i32::MIN as int),
    ensures
        r == clamp_i32(h + d),
{
    let s: i64 = h as i64 + d;
    if s < i32::MIN as i64 {
        i32::MIN
    } else if s > i32::MAX as i64 {
        i32::MAX
    } else {
        s as i32
    }
}

impl View for Effects {
    type V = Seq<ActiveEffect>;

    open spec fn view(&self) -> Seq<ActiveEffect> {
        self.effects@
    }
}

impl Effects {
    /// Every effect is well formed.
    pub open spec fn wf(self) -> bool {
        effects_wf(self@)
    }

    /// No effects.
    pub fn new() -> (r: Effects)
        ensures
            r@ == Seq::<ActiveEffect>::empty(),
            r.wf(),
    {
        Effects { effects: Vec::new() }
    }

    /// Adds an effect after those already there.
    pub fn add(&mut self, e: ActiveEffect)
        requires
            old(self).wf(),
            e.wf(),
        ensures
            final(self)@ == old(self)@.push(e),
            final(self).wf(),
    {
        self.effects.push(e);
        assert forall|i: int| 0 <= i < self@.len() implies (#[trigger] self@[i]).wf() by {
            if i < old(self)@.len() {
                assert(self@[i] == old(self)@[i]);
            }
        }
    }

    /// Whether a stun whose duration has not elapsed is active.
    pub fn is_stunned(&self) -> (r: bool)
        ensures
            r == stunned_in(self@),
    {
        let n = self.effects.len();
        let mut i: usize = 0;
        while i < n
            invariant
                n == self@.len(),
                i <= n,
                forall|j: int| 0 <= j < i ==> !(#[trigger] self@[j]).is_active_stun(),
            decreases n - i,
        {
            if self.effects[i].stuns() {
                return true;
            }
            i += 1;
        }
        false
    }

    /// One step of `delta` milliseconds: ticks every effect, applies what it
    /// does to `health`, and keeps exactly the effects that persist.
    pub fn apply_step(&mut self, health: &mut i32, delta: u64)
        requires
            old(self).wf(),
        ensures
            final(self)@ == survivors(old(self)@, delta as nat),
            *final(health) == health_after(*old(health) as int, old(self)@, delta as nat),
            final(self).wf(),
    {
        let ghost s = self@;
        let mut kept: Vec<ActiveEffect> = Vec::new();
        let mut h: i32 = *health;
        let n = self.effects.len();
        let mut i: usize = 0;
        while i < n
            invariant
                n == s.len(),
                self@ == s,
                i <= n,
                forall|j: int| 0 <= j < s.len() ==> (#[trigger] s[j]).wf(),
                kept@ == survivors(s.subrange(0, i as int), delta as nat),
                h == health_after(*old(health) as int, s.subrange(0, i as int), delta as nat),
                forall|j: int| 0 <= j < kept@.len() ==> (#[trigger] kept@[j]).wf(),
            decreases n - i,
        {
            let mut e = self.effects[i];
            e.tick(delta);
            h = add_clamped(h, e.health_delta());
            if e.stays() {
                kept.push(e);
            }
            assert(s.subrange(0, i + 1).drop_last() =~= s.subrange(0, i as int));
            i += 1;
        }
        assert(s.subrange(0, n as int) =~= s);
        self.effects = kept;
        *health = h;
    }
}

/// Sum of step lengths.
pub open spec fn total(deltas: Seq<nat>) -> nat
    decreases deltas.len(),
{
    if deltas.len() == 0 {
        0
    } else {
        total(deltas.drop_last()) + deltas.last()
    }
}

/// A lone effect run through steps of the given lengths, as one step of
/// [`Effects::apply_step`] treats a list that holds only it: the effect left
/// afterwards, if any, and how many times it dealt damage over time.
pub open spec fn lone_run(e: ActiveEffect, deltas: Seq<nat>) -> (Option<ActiveEffect>, nat)
    decreases deltas.len(),
{
    if deltas.len() == 0 {
        (Some(e), 0)
    } else {
        let (cur, fires) = lone_run(e, deltas.drop_last());
        match cur {
            None => (None, fires),
            Some(c) => {
                let t = c.ticked(deltas.last());
                let fired: nat = if t matches ActiveEffect::DamageOverTime { frequency, .. }
                    && frequency.finished {
                    1
                } else {
                    0
                };
                (if t.persists() {
                    Some(t)
                } else {
                    None
                }, fires + fired)
            },
        }
    }
}

/// A step over a list that holds one effect keeps exactly what
/// [`lone_run`] keeps.
pub proof fn lemma_survivors_of_one(e: ActiveEffect, delta: nat)
    ensures
        survivors(seq![e], delta) == (if e.ticked(delta).persists() {
            seq![e.ticked(delta)]
        } else {
            Seq::<ActiveEffect>::empty()
        }),
{
    reveal_with_fuel(survivors, 2);
    assert(seq![e].drop_last() =~= Seq::<ActiveEffect>::empty());
    assert(Seq::<ActiveEffect>::empty().push(e.ticked(delta)) =~= seq![e.ticked(delta)]);
}

/// One-shot effects never persist: after a step, no direct damage and no
/// heal is left among the surviving effects.
pub proof fn lemma_one_shot_effects_never_persist(s: Seq<ActiveEffect>, delta: nat)
    ensures
        forall|i: int|
            0 <= i < survivors(s, delta).len() ==> {
                let e = #[trigger] survivors(s, delta)[i];
                !(e is DirectDamage) && !(e is Heal)
            },
    decreases s.len(),
{
    if s.len() > 0 {
        lemma_one_shot_effects_never_persist(s.drop_last(), delta);
        let rest = survivors(s.drop_last(), delta);
        let t = s.last().ticked(delta);
        if t.persists() {
            assert forall|i: int| 0 <= i < survivors(s, delta).len() implies {
                let e = #[trigger] survivors(s, delta)[i];
                !(e is DirectDamage) && !(e is Heal)
            } by {
                if i < rest.len() {
                    assert(survivors(s, delta)[i] == rest[i]);
                }
            }
        }
    }
}

/// An effect that has not run out after its tick is still there after the
/// step, ticked.
pub proof fn lemma_survivors_keep_running_effects(s: Seq<ActiveEffect>, delta: nat, k: int)
    requires
        0 <= k < s.len(),
        s[k].ticked(delta).persists(),
    ensures
        survivors(s, delta).contains(s[k].ticked(delta)),
    decreases s.len(),
{
    let rest = survivors(s.drop_last(), delta);
    let t = s.last().ticked(delta);
    if k == s.len() - 1 {
        assert(survivors(s, delta)[rest.len() as int] == t);
    } else {
        assert(s.drop_last()[k] == s[k]);
        lemma_survivors_keep_running_effects(s.drop_last(), delta, k);
        let j = choose|j: int| 0 <= j < rest.len() && rest[j] == s[k].ticked(delta);
        if t.persists() {
            assert(survivors(s, delta)[j] == rest[j]);
        }
    }
}

proof fn lemma_dot_progress(damage: i32, duration: u64, frequency: u64, deltas: Seq<nat>)
    requires
        0 < frequency,
        0 < duration,
    ensures
        ({
            let (cur, fires) = lone_run(
                CardEffect::DamageOverTime { damage, duration, frequency }.activated(),
                deltas,
            );
            let t = total(deltas);
            &&& t < duration ==> {
                &&& cur matches Some(c) && c matches ActiveEffect::DamageOverTime {
                    damage: dm,
                    duration: du,
                    frequency: fr,
                } && dm == damage && du == Countdown {
                    elapsed: t as u64,
                    period: duration,
                    mode: TimerMode::Once,
                    finished: false,
                } && fr.elapsed == t % (frequency as nat) && fr.period == frequency && fr.mode
                    == TimerMode::Repeating
                &&& fires <= t / (frequency as nat)
            }
            &&& t >= duration ==> cur is None && fires <= (duration - 1) as nat / (
            frequency as nat) + 1
        }),
    decreases deltas.len(),
{
    let e0 = CardEffect::DamageOverTime { damage, duration, frequency }.activated();
    if deltas.len() > 0 {
        let ds = deltas.drop_last();
        let d = deltas.last();
        lemma_dot_progress(damage, duration, frequency, ds);
        let (cur, fires) = lone_run(e0, ds);
        let tp = total(ds);
        let t = total(deltas);
        let f = frequency as nat;
        assert(t == tp + d);
        if tp < duration {
            let c = cur->0;
            let tk = c.ticked(d);
            let r = tp % f;
            assert(tp == f * (tp / f) + r && r < f) by (nonlinear_arith)
                requires
                    f > 0,
                    r == tp % f,
            ;
            if r + d >= f {
                assert((tp + d) / f >= tp / f + 1) by (nonlinear_arith)
                    requires
                        f > 0,
                        tp == f * (tp / f) + r,
                        r + d >= f,
                ;
                vstd::arithmetic::div_mod::lemma_mod_multiples_vanish(
                    (tp / f) as int,
                    (r + d) as int,
                    f as int,
                );
                assert(f * (tp / f) + (r + d) == tp + d);
            } else {
                assert((tp + d) / f == tp / f && (tp + d) % f == r + d) by (nonlinear_arith)
                    requires
                        f > 0,
                        tp == f * (tp / f) + r,
                        r + d < f,
                ;
            }
            if t >= duration {
                assert(tp / f <= (duration - 1) as nat / f) by (nonlinear_arith)
                    requires
                        f > 0,
                        tp <= duration - 1,
                ;
            }
        }
    }
}

/// A damage-over-time effect terminates: it is present while less than its
/// duration has elapsed and gone from the first step at which the elapsed
/// time reaches it, and however the time is cut into steps it deals its
/// damage at most `ceil(duration / frequency)` times, which is at most
/// `duration / frequency + 1`.
pub proof fn lemma_dot_terminates(damage: i32, duration: u64, frequency: u64, deltas: Seq<nat>)
    requires
        0 < frequency <= duration,
    ensures
        ({
            let (cur, fires) = lone_run(
                CardEffect::DamageOverTime { damage, duration, frequency }.activated(),
                deltas,
            );
            &&& fires <= (duration - 1) as nat / (frequency as nat) + 1
            &&& fires <= duration / frequency + 1
            &&& total(deltas) < duration ==> cur is Some
            &&& total(deltas) >= duration ==> cur is None
        }),
{
    lemma_dot_progress(damage, duration, frequency, deltas);
    let f = frequency as nat;
    assert((duration - 1) as nat / f <= duration as nat / f) by (nonlinear_arith)
        requires
            f > 0,
            duration >= 1,
    ;
    if total(deltas) < duration {
        let t = total(deltas);
        assert(t / f <= (duration - 1) as nat / f) by (nonlinear_arith)
            requires
                f > 0,
                t <= duration - 1,
        ;
    }
}

proof fn lemma_dot_exact_progress(damage: i32, duration: u64, frequency: u64, deltas: Seq<nat>)
    requires
        0 < frequency,
        0 < duration,
        forall|i: int| 0 <= i < deltas.len() ==> #[trigger] deltas[i] <= frequency,
        total(deltas) <= duration,
    ensures
        ({
            let (cur, fires) = lone_run(
                CardEffect::DamageOverTime { damage, duration, frequency }.activated(),
                deltas,
            );
            let t = total(deltas);
            &&& t < duration ==> fires == t / (frequency as nat)
            &&& t == duration ==> cur is None && fires == duration as nat / (frequency as nat)
        }),
    decreases deltas.len(),
{
    let e0 = CardEffect::DamageOverTime { damage, duration, frequency }.activated();
    lemma_dot_progress(damage, duration, frequency, deltas);
    if deltas.len() > 0 {
        let ds = deltas.drop_last();
        let d = deltas.last();
        assert forall|i: int| 0 <= i < ds.len() implies #[trigger] ds[i] <= frequency by {
            assert(ds[i] == deltas[i]);
        }
        lemma_dot_exact_progress(damage, duration, frequency, ds);
        lemma_dot_progress(damage, duration, frequency, ds);
        let (cur, fires) = lone_run(e0, ds);
        let tp = total(ds);
        let f = frequency as nat;
        assert(d <= f);
        if tp < duration {
            let r = tp % f;
            assert(tp == f * (tp / f) + r && r < f) by (nonlinear_arith)
                requires
                    f > 0,
                    r == tp % f,
            ;
            if r + d >= f {
                assert((tp + d) / f == tp / f + 1) by (nonlinear_arith)
                    requires
                        f > 0,
                        tp == f * (tp / f) + r,
                        r + d >= f,
                        r < f,
                        d <= f,
                ;
            } else {
                assert((tp + d) / f == tp / f) by (nonlinear_arith)
                    requires
                        f > 0,
                        tp == f * (tp / f) + r,
                        r + d < f,
                ;
            }
        }
    }
}

/// With steps no longer than the frequency that add up to the duration, a
/// damage-over-time effect deals its damage exactly `duration / frequency`
/// times (rounded down), then is gone.
pub proof fn lemma_dot_fires_floor(damage: i32, duration: u64, frequency: u64, deltas: Seq<nat>)
    requires
        0 < frequency <= duration,
        forall|i: int| 0 <= i < deltas.len() ==> #[trigger] deltas[i] <= frequency,
        total(deltas) == duration,
    ensures
        lone_run(CardEffect::DamageOverTime { damage, duration, frequency }.activated(), deltas)
            == (None::<ActiveEffect>, duration as nat / frequency as nat),
{
    lemma_dot_exact_progress(damage, duration, frequency, deltas);
}

/// The sum of what each effect of `s` does to health in a step of `delta`
/// milliseconds.
pub open spec fn total_change(s: Seq<ActiveEffect>, delta: nat) -> int
    decreases s.len(),
{
    if s.len() == 0 {
        0
    } else {
        total_change(s.drop_last(), delta) + s.last().ticked(delta).health_change()
    }
}

/// Where no partial sum leaves `i32`, a step changes health by exactly the
/// sum of what its effects do.
pub proof fn lemma_health_after_unsaturated(h: int, s: Seq<ActiveEffect>, delta: nat)
    requires
        forall|j: int|
            0 <= j <= s.len() ==> i32::MIN <= h + #[trigger] total_change(s.take(j), delta)
                <= i32::MAX,
    ensures
        health_after(h, s, delta) == h + total_change(s, delta),
    decreases s.len(),
{
    if s.len() > 0 {
        let ds = s.drop_last();
        assert forall|j: int| 0 <= j <= ds.len() implies i32::MIN <= h + #[trigger] total_change(
            ds.take(j),
            delta,
        ) <= i32::MAX by {
            assert(ds.take(j) =~= s.take(j));
        }
        lemma_health_after_unsaturated(h, ds, delta);
        assert(s.take(s.len() as int) =~= s);
    }
}

/// An effect list run through steps of the given lengths with nothing
/// added, as repeated calls of [`Effects::apply_step`] leave it.
pub open spec fn effects_run(s: Seq<ActiveEffect>, deltas: Seq<nat>) -> Seq<ActiveEffect>
    decreases deltas.len(),
{
    if deltas.len() == 0 {
        s
    } else {
        survivors(effects_run(s, deltas.drop_last()), deltas.last())
    }
}

/// What remains of one effect run alone: itself ticked, or nothing once it
/// has run out.
pub open spec fn lone_rest(x: ActiveEffect, deltas: Seq<nat>) -> Seq<ActiveEffect> {
    match lone_run(x, deltas).0 {
        Some(y) => seq![y],
        None => Seq::empty(),
    }
}

/// Each effect of a list run on its own, the results in list order.
pub open spec fn run_each(s: Seq<ActiveEffect>, deltas: Seq<nat>) -> Seq<ActiveEffect>
    decreases s.len(),
{
    if s.len() == 0 {
        Seq::empty()
    } else {
        run_each(s.drop_last(), deltas) + lone_rest(s.last(), deltas)
    }
}

proof fn lemma_survivors_concat(a: Seq<ActiveEffect>, b: Seq<ActiveEffect>, delta: nat)
    ensures
        survivors(a + b, delta) == survivors(a, delta) + survivors(b, delta),
    decreases b.len(),
{
    if b.len() == 0 {
        assert(a + b =~= a);
        assert(survivors(a, delta) + survivors(b, delta) =~= survivors(a, delta));
    } else {
        assert((a + b).drop_last() =~= a + b.drop_last());
        lemma_survivors_concat(a, b.drop_last(), delta);
        let t = b.last().ticked(delta);
        assert((a + b).last() == b.last());
        if t.persists() {
            assert(survivors(a, delta) + survivors(b, delta) =~= (survivors(a, delta) + survivors(
                b.drop_last(),
                delta,
            )).push(t));
        }
    }
}

proof fn lemma_lone_rest_step(x: ActiveEffect, deltas: Seq<nat>, delta: nat)
    ensures
        survivors(lone_rest(x, deltas), delta) == lone_rest(x, deltas.push(delta)),
{
    assert(deltas.push(delta).drop_last() =~= deltas);
    match lone_run(x, deltas).0 {
        Some(y) => {
            lemma_survivors_of_one(y, delta);
        },
        None => {
            assert(survivors(Seq::<ActiveEffect>::empty(), delta) == Seq::<ActiveEffect>::empty());
        },
    }
}

proof fn lemma_run_each_step(s: Seq<ActiveEffect>, deltas: Seq<nat>, delta: nat)
    ensures
        run_each(s, deltas.push(delta)) == survivors(run_each(s, deltas), delta),
    decreases s.len(),
{
    if s.len() == 0 {
        assert(survivors(Seq::<ActiveEffect>::empty(), delta) == Seq::<ActiveEffect>::empty());
    } else {
        lemma_run_each_step(s.drop_last(), deltas, delta);
        lemma_survivors_concat(run_each(s.drop_last(), deltas), lone_rest(s.last(), deltas), delta);
        lemma_lone_rest_step(s.last(), deltas, delta);
    }
}

proof fn lemma_run_each_none(s: Seq<ActiveEffect>)
    ensures
        run_each(s, Seq::empty()) == s,
    decreases s.len(),
{
    if s.len() > 0 {
        lemma_run_each_none(s.drop_last());
        assert(s.drop_last() + seq![s.last()] =~= s);
    }
}

proof fn lemma_run_each_concat(a: Seq<ActiveEffect>, b: Seq<ActiveEffect>, deltas: Seq<nat>)
    ensures
        run_each(a + b, deltas) == run_each(a, deltas) + run_each(b, deltas),
    decreases b.len(),
{
    if b.len() == 0 {
        assert(a + b =~= a);
        assert(run_each(a, deltas) + run_each(b, deltas) =~= run_each(a, deltas));
    } else {
        assert((a + b).drop_last() =~= a + b.drop_last());
        assert((a + b).last() == b.last());
        lemma_run_each_concat(a, b.drop_last(), deltas);
        assert(run_each(a, deltas) + run_each(b, deltas) =~= run_each(a, deltas) + run_each(
            b.drop_last(),
            deltas,
        ) + lone_rest(b.last(), deltas));
    }
}

/// Effects in a list run independently: a list run through steps with
/// nothing added is each of its effects run alone, in list order.
pub proof fn lemma_effects_run_each(s: Seq<ActiveEffect>, deltas: Seq<nat>)
    ensures
        effects_run(s, deltas) == run_each(s, deltas),
    decreases deltas.len(),
{
    if deltas.len() == 0 {
        assert(deltas =~= Seq::<nat>::empty());
        lemma_run_each_none(s);
    } else {
        let ds = deltas.drop_last();
        lemma_effects_run_each(s, ds);
        lemma_run_each_step(s, ds, deltas.last());
        assert(ds.push(deltas.last()) =~= deltas);
    }
}

/// A damage-over-time effect terminates wherever it stands in a list: run
/// through steps with nothing added, a list `before + [dot] + after` holds
/// what remains of `before`, then the effect itself while less than its
/// duration has elapsed and nothing from the first step at which the
/// elapsed time reaches it, then what remains of `after`. Meanwhile it deals
/// its damage at most `ceil(duration / frequency)` times.
pub proof fn lemma_dot_in_list_terminates(
    before: Seq<ActiveEffect>,
    after: Seq<ActiveEffect>,
    damage: i32,
    duration: u64,
    frequency: u64,
    deltas: Seq<nat>,
)
    requires
        0 < frequency <= duration,
    ensures
        ({
            let dot = CardEffect::DamageOverTime { damage, duration, frequency }.activated();
            let (cur, fires) = lone_run(dot, deltas);
            &&& effects_run(before + seq![dot] + after, deltas) == effects_run(before, deltas)
                + lone_rest(dot, deltas) + effects_run(after, deltas)
            &&& total(deltas) < duration ==> lone_rest(dot, deltas) == seq![cur->0]
            &&& total(deltas) >= duration ==> lone_rest(dot, deltas) == Seq::<ActiveEffect>::empty()
            &&& fires <= (duration - 1) as nat / (frequency as nat) + 1
        }),
{
    let dot = CardEffect::DamageOverTime { damage, duration, frequency }.activated();
    lemma_dot_terminates(damage, duration, frequency, deltas);
    let s = before + seq![dot] + after;
    lemma_effects_run_each(s, deltas);
    lemma_effects_run_each(before, deltas);
    lemma_effects_run_each(after, deltas);
    lemma_run_each_concat(before + seq![dot], after, deltas);
    lemma_run_each_concat(before, seq![dot], deltas);
    assert(seq![dot].drop_last() =~= Seq::<ActiveEffect>::empty());
    assert(run_each(Seq::<ActiveEffect>::empty(), deltas) == Seq::<ActiveEffect>::empty());
    assert(Seq::<ActiveEffect>::empty() + lone_rest(dot, deltas) =~= lone_rest(dot, deltas));
    assert(run_each(seq![dot], deltas) =~= lone_rest(dot, deltas));
}

/// A card: an effect and the repeating countdown that fires it.
#[derive(Clone, Copy, Debug, PartialEq, Eq, Structural)]
pub struct Card {
    pub effect: CardEffect,
    pub attack_timer: Countdown,
}

impl Card {
    /// A valid effect and a well-formed repeating attack countdown.
    pub open spec fn wf(self) -> bool {
        &&& self.effect.wf()
        &&& self.attack_timer.wf()
        &&& self.attack_timer.mode == TimerMode::Repeating
    }

    /// A card with a fresh attack countdown of `period` milliseconds.
    pub fn new(effect: CardEffect, period: u64) -> (r: Result<Card, ConfigError>)
        ensures
            r is Ok <==> (effect.wf() && period > 0),
            r matches Err(e) ==> e == ConfigError::ZeroPeriod,
            r matches Ok(c) ==> c.wf() && c == (Card {
                effect,
                attack_timer: fresh_repeating(period),
            }),
    {
        match effect.validate() {
            Err(e) => Err(e),
            Ok(()) => match Countdown::new(period, TimerMode::Repeating) {
                None => Err(ConfigError::ZeroPeriod),
                Some(t) => Ok(Card { effect, attack_timer: t }),
            },
        }
    }
}

} // verus!
