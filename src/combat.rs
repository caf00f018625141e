//! Combatants and the per-step combat resolver: attack scheduling with stun
//! gating, then effect application on both sides.
use vstd::prelude::*;
use crate::card::{
    ActiveEffect, Card, Effects, effects_wf, health_after, lemma_health_after_unsaturated,
    lemma_survivors_keep_running_effects, lone_run, stunned_in, survivors, total, total_change,
};
use crate::countdown::{Countdown, TimerMode};
use crate::skills::{Class, Stats};

verus! {

/// One side of a battle.
#[derive(Debug)]
pub struct Combatant {
    pub stats: Stats,
    /// The class of a player character; enemies have none.
    pub class: Option<Class>,
    pub health: i32,
    pub effects: Effects,
    pub cards: Vec<Card>,
}

/// The mathematical value of a combatant.
pub struct CombatantView {
    pub stats: Stats,
    pub class: Option<Class>,
    pub health: int,
    pub effects: Seq<ActiveEffect>,
    pub cards: Seq<Card>,
}

impl View for Combatant {
    type V = CombatantView;

    open spec fn view(&self) -> CombatantView {
        CombatantView {
            stats: self.stats,
            class: self.class,
            health: self.health as int,
            effects: self.effects@,
            cards: self.cards@,
        }
    }
}

impl Card {
    /// The card after its attack countdown has run `delta` more milliseconds.
    pub open spec fn ticked(self, delta: nat) -> Card {
        Card { attack_timer: self.attack_timer.ticked(delta), ..self }
    }
}

/// Every card's attack countdown run `delta` more milliseconds.
pub open spec fn ticked_cards(cards: Seq<Card>, delta: nat) -> Seq<Card> {
    cards.map_values(|c: Card| c.ticked(delta))
}

/// The attack intents of one step: the effect of each card whose countdown
/// completes, instantiated, in card order.
pub open spec fn intents(cards: Seq<Card>, delta: nat) -> Seq<ActiveEffect>
    decreases cards.len(),
{
    if cards.len() == 0 {
        Seq::empty()
    } else {
        let rest = intents(cards.drop_last(), delta);
        let c = cards.last().ticked(delta);
        if c.attack_timer.finished {
            rest.push(c.effect.activated())
        } else {
            rest
        }
    }
}

/// Every element of `s` is a well-formed card.
pub open spec fn cards_wf(s: Seq<Card>) -> bool {
    forall|i: int| 0 <= i < s.len() ==> (#[trigger] s[i]).wf()
}

impl CombatantView {
    /// Valid stats, well-formed effects and cards, health within `i32`.
    pub open spec fn wf(self) -> bool {
        &&& self.stats.wf()
        &&& effects_wf(self.effects)
        &&& cards_wf(self.cards)
        &&& i32::MIN <= self.health <= i32::MAX
    }

    /// Alive: health above zero.
    pub open spec fn is_alive(self) -> bool {
        self.health > 0
    }

    /// Whether the combatant's attack countdowns run this step: it is alive
    /// and not stunned.
    pub open spec fn can_attack(self) -> bool {
        self.health > 0 && !stunned_in(self.effects)
    }

    /// The effects this combatant sends to its opponent in a step.
    pub open spec fn attacks(self, delta: nat) -> Seq<ActiveEffect> {
        if self.can_attack() {
            intents(self.cards, delta)
        } else {
            Seq::empty()
        }
    }

    /// The combatant's cards after a step: frozen unless it can attack.
    pub open spec fn cards_after(self, delta: nat) -> Seq<Card> {
        if self.can_attack() {
            ticked_cards(self.cards, delta)
        } else {
            self.cards
        }
    }

    /// The combatant after a step of `delta` milliseconds against `foe`: the
    /// foe's attacks join its effects, which are then applied.
    pub open spec fn stepped(self, foe: CombatantView, delta: nat) -> CombatantView {
        let incoming = self.effects + foe.attacks(delta);
        CombatantView {
            stats: self.stats,
            class: self.class,
            health: health_after(self.health, incoming, delta),
            effects: survivors(incoming, delta),
            cards: self.cards_after(delta),
        }
    }
}

impl Combatant {
    /// See [`CombatantView::wf`].
    pub open spec fn wf(&self) -> bool {
        self@.wf()
    }

    /// A combatant with the given health and no active effects.
    pub fn new(stats: Stats, class: Option<Class>, health: i32, cards: Vec<Card>) -> (r: Combatant)
        requires
            stats.wf(),
            cards_wf(cards@),
        ensures
            r@ == (CombatantView {
                stats,
                class,
                health: health as int,
                effects: Seq::empty(),
                cards: cards@,
            }),
            r.wf(),
    {
        Combatant { stats, class, health, effects: Effects::new(), cards }
    }

    /// Whether the combatant is alive.
    pub fn is_alive(&self) -> (r: bool)
        ensures
            r == self@.is_alive(),
    {
        self.health > 0
    }

    /// Whether a stun whose duration has not elapsed is active on the combatant.
    pub fn is_stunned(&self) -> (r: bool)
        ensures
            r == stunned_in(self@.effects),
    {
        self.effects.is_stunned()
    }
}

/// Runs every card's attack countdown `delta` more milliseconds and returns
/// the effects of those that completed, in card order.
pub fn tick_cards(cards: &mut Vec<Card>, delta: u64) -> (r: Vec<ActiveEffect>)
    requires
        cards_wf(old(cards)@),
    ensures
        final(cards)@ == ticked_cards(old(cards)@, delta as nat),
        r@ == intents(old(cards)@, delta as nat),
        cards_wf(final(cards)@),
        effects_wf(r@),
{
    let ghost s = cards@;
    let mut out: Vec<ActiveEffect> = Vec::new();
    let n = cards.len();
    let mut i: usize = 0;
    while i < n
        invariant
            n == s.len(),
            cards@.len() == n,
            i <= n,
            cards_wf(s),
            forall|j: int| 0 <= j < i ==> cards@[j] == #[trigger] s[j].ticked(delta as nat),
            forall|j: int| i <= j < n ==> cards@[j] == #[trigger] s[j],
            cards_wf(cards@),
            out@ == intents(s.subrange(0, i as int), delta as nat),
            effects_wf(out@),
        decreases n - i,
    {
        let mut c = cards[i];
        assert(c == s[i as int]);
        c.attack_timer.tick(delta);
        cards.set(i, c);
        if c.attack_timer.finished() {
            let e = c.effect.activate();
            out.push(e);
            assert forall|j: int| 0 <= j < out@.len() implies (#[trigger] out@[j]).wf() by {
                if j < out@.len() - 1 {
                    assert(out@[j] == out@.drop_last()[j]);
                }
            }
        }
        assert(s.subrange(0, i + 1).drop_last() =~= s.subrange(0, i as int));
        i += 1;
    }
    assert(s.subrange(0, n as int) =~= s);
    assert(cards@ =~= ticked_cards(s, delta as nat));
    out
}

impl Effects {
    /// Adds `incoming` after the effects already there, in order.
    pub fn add_all(&mut self, incoming: Vec<ActiveEffect>)
        requires
            effects_wf(old(self)@),
            effects_wf(incoming@),
        ensures
            final(self)@ == old(self)@ + incoming@,
            effects_wf(final(self)@),
    {
        let n = incoming.len();
        let mut i: usize = 0;
        while i < n
            invariant
                n == incoming@.len(),
                i <= n,
                effects_wf(incoming@),
                self@ == old(self)@ + incoming@.subrange(0, i as int),
                effects_wf(self@),
            decreases n - i,
        {
            self.add(incoming[i]);
            assert(old(self)@ + incoming@.subrange(0, i + 1) =~= (old(self)@ + incoming@.subrange(
                0,
                i as int,
            )).push(incoming@[i as int]));
            i += 1;
        }
        assert(incoming@.subrange(0, n as int) =~= incoming@);
    }
}

/// Both combatants after a run of steps of the given lengths.
pub open spec fn run_steps(p: CombatantView, e: CombatantView, deltas: Seq<nat>) -> (
    CombatantView,
    CombatantView,
)
    decreases deltas.len(),
{
    if deltas.len() == 0 {
        (p, e)
    } else {
        let (p_prev, e_prev) = run_steps(p, e, deltas.drop_last());
        (p_prev.stepped(e_prev, deltas.last()), e_prev.stepped(p_prev, deltas.last()))
    }
}

/// Stun freezes attack countdowns: while a combatant is stunned at the start
/// of every step of a run, its cards, and so each attack countdown's elapsed
/// time, are at the end exactly as at the start.
pub proof fn lemma_stun_freezes_attack_timers(
    p: CombatantView,
    e: CombatantView,
    deltas: Seq<nat>,
)
    requires
        forall|k: int|
            0 <= k < deltas.len() ==> stunned_in((#[trigger] run_steps(p, e, deltas.take(k))).0.effects),
    ensures
        run_steps(p, e, deltas).0.cards == p.cards,
    decreases deltas.len(),
{
    if deltas.len() > 0 {
        let ds = deltas.drop_last();
        assert forall|k: int| 0 <= k < ds.len() implies stunned_in(
            (#[trigger] run_steps(p, e, ds.take(k))).0.effects,
        ) by {
            assert(ds.take(k) =~= deltas.take(k));
        }
        lemma_stun_freezes_attack_timers(p, e, ds);
        assert(deltas.take(ds.len() as int) =~= ds);
    }
}

/// Prefixes of a run of steps take no longer than the run.
pub proof fn lemma_total_of_prefix(deltas: Seq<nat>, k: int)
    requires
        0 <= k <= deltas.len(),
    ensures
        total(deltas.take(k)) <= total(deltas),
    decreases deltas.len(),
{
    if k < deltas.len() {
        let ds = deltas.drop_last();
        assert(ds.take(k) =~= deltas.take(k));
        lemma_total_of_prefix(ds, k);
    } else {
        assert(deltas.take(k) =~= deltas);
    }
}

/// A one-shot stun countdown that has run `elapsed` of its `period`.
pub open spec fn stun_at(elapsed: int, period: u64) -> ActiveEffect {
    ActiveEffect::Stun {
        duration: Countdown {
            elapsed: elapsed as u64,
            period,
            mode: TimerMode::Once,
            finished: false,
        },
    }
}

/// A stun that has not run out stays on its holder through a run of steps,
/// its countdown advanced by the run's length.
proof fn lemma_stun_carries(
    p: CombatantView,
    e: CombatantView,
    deltas: Seq<nat>,
    elapsed: u64,
    period: u64,
)
    requires
        p.effects.contains(stun_at(elapsed as int, period)),
        elapsed + total(deltas) < period,
    ensures
        run_steps(p, e, deltas).0.effects.contains(stun_at(elapsed + total(deltas), period)),
    decreases deltas.len(),
{
    if deltas.len() > 0 {
        let ds = deltas.drop_last();
        let d = deltas.last();
        lemma_stun_carries(p, e, ds, elapsed, period);
        let (p_prev, e_prev) = run_steps(p, e, ds);
        let st = stun_at(elapsed + total(ds), period);
        let j = choose|j: int| 0 <= j < p_prev.effects.len() && p_prev.effects[j] == st;
        let incoming = p_prev.effects + e_prev.attacks(d);
        assert(incoming[j] == st);
        assert(st.ticked(d) == stun_at(elapsed + total(deltas), period));
        lemma_survivors_keep_running_effects(incoming, d, j);
    }
}

/// Stun freezes attack countdowns: a combatant that holds a stun whose
/// remaining time outlasts the start of every step of a run has, after the
/// run, its cards, and so each attack countdown's elapsed time, exactly as
/// before.
pub proof fn lemma_unexpired_stun_freezes_attack_timers(
    p: CombatantView,
    e: CombatantView,
    deltas: Seq<nat>,
    elapsed: u64,
    period: u64,
)
    requires
        p.effects.contains(stun_at(elapsed as int, period)),
        deltas.len() > 0,
        elapsed + total(deltas.drop_last()) < period,
    ensures
        run_steps(p, e, deltas).0.cards == p.cards,
{
    let ds = deltas.drop_last();
    assert forall|k: int| 0 <= k < deltas.len() implies stunned_in(
        (#[trigger] run_steps(p, e, deltas.take(k))).0.effects,
    ) by {
        assert(ds.take(k) =~= deltas.take(k));
        lemma_total_of_prefix(ds, k);
        lemma_stun_carries(p, e, deltas.take(k), elapsed, period);
        let fx = run_steps(p, e, deltas.take(k)).0.effects;
        let st = stun_at(elapsed + total(deltas.take(k)), period);
        let j = choose|j: int| 0 <= j < fx.len() && fx[j] == st;
        assert(fx[j].is_active_stun());
    }
    lemma_stun_freezes_attack_timers(p, e, deltas);
}

/// Effects run on whatever else happens: an effect held by a combatant,
/// stunned or not, is still held after a run of steps in exactly the state
/// it would reach alone ([`lone_run`]) for as long as it has not run out, so
/// a damage-over-time effect keeps its countdowns and fires at its frequency
/// throughout.
pub proof fn lemma_effects_run_on(
    p: CombatantView,
    e: CombatantView,
    deltas: Seq<nat>,
    x: ActiveEffect,
)
    requires
        p.effects.contains(x),
        lone_run(x, deltas).0 is Some,
    ensures
        run_steps(p, e, deltas).0.effects.contains(lone_run(x, deltas).0->0),
    decreases deltas.len(),
{
    if deltas.len() > 0 {
        let ds = deltas.drop_last();
        let d = deltas.last();
        lemma_effects_run_on(p, e, ds, x);
        let (p_prev, e_prev) = run_steps(p, e, ds);
        let cur = lone_run(x, ds).0->0;
        let j = choose|j: int| 0 <= j < p_prev.effects.len() && p_prev.effects[j] == cur;
        let incoming = p_prev.effects + e_prev.attacks(d);
        assert(incoming[j] == cur);
        lemma_survivors_keep_running_effects(incoming, d, j);
    }
}

/// Stun gates attacks and nothing else: a stunned combatant sends nothing and
/// its cards stay put, while its effects still run. A damage-over-time effect
/// on it is ticked and stays while its duration has not elapsed, and where no
/// saturation occurs its health moves by exactly what its effects do, the
/// damage of each damage-over-time effect whose frequency completes a cycle
/// included.
pub proof fn lemma_stun_keeps_effects_running(
    p: CombatantView,
    e: CombatantView,
    delta: nat,
    k: int,
)
    requires
        stunned_in(p.effects),
        0 <= k < p.effects.len(),
        p.effects[k] is DamageOverTime,
    ensures
        p.attacks(delta) == Seq::<ActiveEffect>::empty(),
        p.stepped(e, delta).cards == p.cards,
        p.effects[k].ticked(delta).persists() ==> p.stepped(e, delta).effects.contains(
            p.effects[k].ticked(delta),
        ),
        ({
            let incoming = p.effects + e.attacks(delta);
            (forall|j: int|
                0 <= j <= incoming.len() ==> i32::MIN <= p.health + #[trigger] total_change(
                    incoming.take(j),
                    delta,
                ) <= i32::MAX) ==> p.stepped(e, delta).health == p.health + total_change(
                incoming,
                delta,
            )
        }),
{
    let incoming = p.effects + e.attacks(delta);
    assert(incoming[k] == p.effects[k]);
    if p.effects[k].ticked(delta).persists() {
        lemma_survivors_keep_running_effects(incoming, delta, k);
    }
    if forall|j: int|
        0 <= j <= incoming.len() ==> i32::MIN <= p.health + #[trigger] total_change(
            incoming.take(j),
            delta,
        ) <= i32::MAX {
        lemma_health_after_unsaturated(p.health, incoming, delta);
    }
}

/// A fallen combatant sends no attacks: with health at or below zero at the
/// start of a step its attack countdowns stay put and nothing reaches its
/// opponent from it.
pub proof fn lemma_fallen_combatant_sends_nothing(p: CombatantView, e: CombatantView, delta: nat)
    requires
        p.health <= 0,
    ensures
        p.attacks(delta) == Seq::<ActiveEffect>::empty(),
        p.stepped(e, delta).cards == p.cards,
        e.stepped(p, delta).effects == survivors(e.effects, delta),
{
    assert(e.effects + p.attacks(delta) =~= e.effects);
}

/// One step of `delta` milliseconds of combat. Each side whose health is
/// above zero and that is not stunned at the start of the step runs its
/// attack countdowns, and each completed countdown puts its card's effect on
/// the opponent. Then each side's effects are ticked and applied.
pub fn resolve_step(player: &mut Combatant, enemy: &mut Combatant, delta: u64)
    requires
        old(player).wf(),
        old(enemy).wf(),
    ensures
        final(player)@ == old(player)@.stepped(old(enemy)@, delta as nat),
        final(enemy)@ == old(enemy)@.stepped(old(player)@, delta as nat),
        final(player).wf(),
        final(enemy).wf(),
{
    let player_attacks = player.health > 0 && !player.effects.is_stunned();
    let enemy_attacks = enemy.health > 0 && !enemy.effects.is_stunned();
    if player_attacks {
        let hits = tick_cards(&mut player.cards, delta);
        enemy.effects.add_all(hits);
    }
    if enemy_attacks {
        let hits = tick_cards(&mut enemy.cards, delta);
        player.effects.add_all(hits);
    }
    assert(player.effects@ =~= old(player)@.effects + old(enemy)@.attacks(delta as nat));
    assert(enemy.effects@ =~= old(enemy)@.effects + old(player)@.attacks(delta as nat));
    let ghost pe = player.effects@;
    let ghost ee = enemy.effects@;
    player.effects.apply_step(&mut player.health, delta);
    enemy.effects.apply_step(&mut enemy.health, delta);
    assert(player@ =~= old(player)@.stepped(old(enemy)@, delta as nat));
    assert(enemy@ =~= old(enemy)@.stepped(old(player)@, delta as nat));
}

} // verus!
