//! The battle-phase state machine: entering battle, stepping combat, death
//! checks, the loot screen, the inventory menu and new runs.
use vstd::prelude::*;
use crate::card::{Card, CardEffect, drawn_effect, fresh_repeating};
use crate::combat::{Combatant, CombatantView, cards_wf, resolve_step};
use crate::countdown::{Countdown, TimerMode};
use crate::random::random_in;
use crate::skills::{Class, Stats};

verus! {

/// Health of a freshly spawned or restarted combatant.
pub const FULL_HEALTH: i32 = 100;

/// Fewest cards a freshly spawned combatant holds.
pub const MIN_CARDS: u64 = 1;

/// Exclusive bound on the cards a freshly spawned combatant holds.
pub const MAX_CARDS: u64 = 4;

/// Attack period, in milliseconds, of an enemy card.
pub const ENEMY_CARD_PERIOD: u64 = 3000;

/// Lower bound, in milliseconds, of a player card's attack period.
pub const PLAYER_CARD_PERIOD_MIN: u64 = 1000;

/// Exclusive upper bound, in milliseconds, of a player card's attack period.
pub const PLAYER_CARD_PERIOD_MAX: u64 = 3000;

/// Number of items on a loot screen.
pub const LOOT_ROLL_SIZE: usize = 10;

/// The coarse game mode.
#[derive(Clone, Copy, Debug, PartialEq, Eq, Structural)]
pub enum GamePhase {
    Battle,
    LootScreen,
    Menu,
    GameOver,
}

/// How rare a loot item is.
#[derive(Clone, Copy, Debug, PartialEq, Eq, Structural)]
pub enum LootRarity {
    Common,
    Rare,
    Epic,
}

/// What a loot item is.
#[derive(Clone, Copy, Debug, PartialEq, Eq, Structural)]
pub enum LootKind {
    HealthPotion,
    MagicSword,
    AncientRelic,
}

/// An item found after a won battle.
#[derive(Clone, Copy, Debug, PartialEq, Eq, Structural)]
pub struct LootItem {
    pub kind: LootKind,
    pub rarity: LootRarity,
}

/// What a call to [`Game::battle_step`] led to.
#[derive(Clone, Copy, Debug, PartialEq, Eq, Structural)]
pub enum StepOutcome {
    /// Not in battle: nothing happened.
    Idle,
    /// Both sides are alive; the battle goes on.
    Continue,
    /// The enemy fell and was removed; the loot screen is up.
    EnemyDefeated,
    /// The player fell; the game is over.
    PlayerDefeated,
}

/// The whole game state.
#[derive(Debug)]
pub struct Game {
    pub phase: GamePhase,
    pub player: Combatant,
    /// The living enemy, if one has been spawned and not yet removed.
    pub enemy: Option<Combatant>,
    /// Items on the loot screen.
    pub loot: Vec<LootItem>,
    /// Items collected between battles.
    pub inventory: Vec<LootItem>,
}

/// The mathematical value of a game.
pub struct GameView {
    pub phase: GamePhase,
    pub player: CombatantView,
    pub enemy: Option<CombatantView>,
    pub loot: Seq<LootItem>,
    pub inventory: Seq<LootItem>,
}

impl View for Game {
    type V = GameView;

    open spec fn view(&self) -> GameView {
        GameView {
            phase: self.phase,
            player: self.player@,
            enemy: match self.enemy {
                Some(e) => Some(e@),
                None => None,
            },
            loot: self.loot@,
            inventory: self.inventory@,
        }
    }
}

/// The player's starting stats.
pub open spec fn player_stats() -> Stats {
    Stats { strength: 20, agility: 10, stamina: 10, perception: 10, intelligence: 10 }
}

/// An enemy's stats.
pub open spec fn enemy_stats() -> Stats {
    Stats { strength: 10, agility: 10, stamina: 10, perception: 10, intelligence: 10 }
}

/// A combatant at full health with no active effects.
pub open spec fn fresh_combatant(stats: Stats, class: Option<Class>, cards: Seq<Card>) -> CombatantView {
    CombatantView { stats, class, health: FULL_HEALTH as int, effects: Seq::empty(), cards }
}

/// A card drawn from the catalogue with a fresh attack countdown whose period
/// lies in `[lo, hi)`.
pub open spec fn random_card_shape(c: Card, lo: u64, hi: u64) -> bool {
    &&& c.wf()
    &&& drawn_effect(c.effect)
    &&& c.effect.in_catalogue()
    &&& lo <= c.attack_timer.period < hi
    &&& c.attack_timer == fresh_repeating(c.attack_timer.period)
}

/// One to three cards, each drawn from the catalogue with a fresh attack
/// countdown whose period lies in `[lo, hi)`.
pub open spec fn random_cards_shape(cards: Seq<Card>, lo: u64, hi: u64) -> bool {
    &&& MIN_CARDS <= cards.len() < MAX_CARDS
    &&& forall|i: int| 0 <= i < cards.len() ==> random_card_shape(#[trigger] cards[i], lo, hi)
}

/// Cards as a newly spawned enemy draws them.
pub open spec fn enemy_cards_shape(cards: Seq<Card>) -> bool {
    random_cards_shape(cards, ENEMY_CARD_PERIOD, (ENEMY_CARD_PERIOD + 1) as u64)
}

/// Cards as the player draws them at the start of the game.
pub open spec fn player_cards_shape(cards: Seq<Card>) -> bool {
    random_cards_shape(cards, PLAYER_CARD_PERIOD_MIN, PLAYER_CARD_PERIOD_MAX)
}

impl GameView {
    /// Both combatants well formed.
    pub open spec fn parts_wf(self) -> bool {
        &&& self.player.wf()
        &&& (self.enemy matches Some(e) ==> e.wf())
    }

    /// Both combatants well formed; in battle or in the menu a living enemy
    /// is present; the player is alive until the game is over.
    pub open spec fn wf(self) -> bool {
        &&& self.parts_wf()
        &&& (self.phase != GamePhase::GameOver ==> self.player.is_alive())
        &&& (self.phase == GamePhase::Battle || self.phase == GamePhase::Menu) ==> self.has_living_enemy()
    }

    /// An enemy is present and alive.
    pub open spec fn has_living_enemy(self) -> bool {
        self.enemy matches Some(e) && e.is_alive()
    }

    /// The state after battle entry with `cards` for a new enemy: nothing
    /// changes while a living enemy exists; otherwise a fresh enemy holding
    /// `cards` is spawned.
    pub open spec fn entered_battle(self, cards: Seq<Card>) -> GameView {
        if self.has_living_enemy() {
            self
        } else {
            GameView { enemy: Some(fresh_combatant(enemy_stats(), None, cards)), ..self }
        }
    }

    /// The state after one simulation step of `delta` milliseconds.
    pub open spec fn stepped(self, delta: nat) -> GameView {
        match self.enemy {
            Some(e) if self.phase == GamePhase::Battle => {
                let p_after = self.player.stepped(e, delta);
                let e_after = e.stepped(self.player, delta);
                if p_after.health <= 0 {
                    GameView {
                        phase: GamePhase::GameOver,
                        player: p_after,
                        enemy: if e_after.health > 0 {
                            Some(e_after)
                        } else {
                            None
                        },
                        ..self
                    }
                } else if e_after.health <= 0 {
                    GameView { phase: GamePhase::LootScreen, player: p_after, enemy: None, ..self }
                } else {
                    GameView { player: p_after, enemy: Some(e_after), ..self }
                }
            },
            _ => self,
        }
    }

    /// What one simulation step of `delta` milliseconds leads to.
    pub open spec fn step_outcome(self, delta: nat) -> StepOutcome {
        match self.enemy {
            Some(e) if self.phase == GamePhase::Battle => {
                if self.player.stepped(e, delta).health <= 0 {
                    StepOutcome::PlayerDefeated
                } else if e.stepped(self.player, delta).health <= 0 {
                    StepOutcome::EnemyDefeated
                } else {
                    StepOutcome::Continue
                }
            },
            _ => StepOutcome::Idle,
        }
    }

    /// The state after the inventory key: battle and menu swap, other
    /// phases ignore it.
    pub open spec fn toggled(self) -> GameView {
        if self.phase == GamePhase::Battle {
            GameView { phase: GamePhase::Menu, ..self }
        } else if self.phase == GamePhase::Menu {
            GameView { phase: GamePhase::Battle, ..self }
        } else {
            self
        }
    }

    /// The state after "loot all" on the loot screen: the loot joins the
    /// inventory, the screen empties and battle is entered with `cards` for a
    /// new enemy. In another phase nothing changes.
    pub open spec fn looted(self, cards: Seq<Card>) -> GameView {
        if self.phase == GamePhase::LootScreen {
            GameView {
                phase: GamePhase::Battle,
                loot: Seq::empty(),
                inventory: self.inventory + self.loot,
                ..self
            }.entered_battle(cards)
        } else {
            self
        }
    }

    /// The state after "new run" on the game-over screen: the player's health
    /// is restored and battle is entered with `cards` for a new enemy. In
    /// another phase nothing changes.
    pub open spec fn restarted(self, cards: Seq<Card>) -> GameView {
        if self.phase == GamePhase::GameOver {
            GameView {
                phase: GamePhase::Battle,
                player: CombatantView { health: FULL_HEALTH as int, ..self.player },
                ..self
            }.entered_battle(cards)
        } else {
            self
        }
    }

    /// The state after the loot screen is filled with `items`; only the loot
    /// screen takes them.
    pub open spec fn with_loot(self, items: Seq<LootItem>) -> GameView {
        if self.phase == GamePhase::LootScreen {
            GameView { loot: items, ..self }
        } else {
            self
        }
    }
}

impl LootItem {
    /// The item's display name.
    pub open spec fn name_of(self) -> Seq<char> {
        match self.kind {
            LootKind::HealthPotion => "Health Potion"@,
            LootKind::MagicSword => "Magic Sword"@,
            LootKind::AncientRelic => "Ancient Relic"@,
        }
    }

    /// The item's display name.
    pub fn name(&self) -> (r: String)
        ensures
            r@ == self.name_of(),
    {
        let s = match self.kind {
            LootKind::HealthPotion => "Health Potion",
            LootKind::MagicSword => "Magic Sword",
            LootKind::AncientRelic => "Ancient Relic",
        };
        s.to_owned()
    }
}

/// The player, a warrior, at full health with its starting stats and `cards`.
pub fn spawn_player(cards: Vec<Card>) -> (r: Combatant)
    requires
        cards_wf(cards@),
    ensures
        r@ == fresh_combatant(player_stats(), Some(Class::Warrior), cards@),
        r.wf(),
{
    let stats = Stats { strength: 20, agility: 10, stamina: 10, perception: 10, intelligence: 10 };
    Combatant::new(stats, Some(Class::Warrior), FULL_HEALTH, cards)
}

/// A fresh enemy holding `cards`.
pub fn spawn_new_enemy(cards: Vec<Card>) -> (r: Combatant)
    requires
        cards_wf(cards@),
    ensures
        r@ == fresh_combatant(enemy_stats(), None, cards@),
        r.wf(),
{
    let stats = Stats { strength: 10, agility: 10, stamina: 10, perception: 10, intelligence: 10 };
    Combatant::new(stats, None, FULL_HEALTH, cards)
}

/// Between one and three cards drawn from the catalogue, each with an attack
/// period drawn from `[lo, hi)`.
pub fn random_cards(lo: u64, hi: u64) -> (r: Vec<Card>)
    requires
        0 < lo < hi,
    ensures
        random_cards_shape(r@, lo, hi),
        cards_wf(r@),
{
    let n = random_in(MIN_CARDS, MAX_CARDS);
    let mut cards: Vec<Card> = Vec::new();
    let mut i: u64 = 0;
    while i < n
        invariant
            i <= n < MAX_CARDS,
            0 < lo < hi,
            cards@.len() == i,
            forall|j: int| 0 <= j < cards@.len() ==> random_card_shape(#[trigger] cards@[j], lo, hi),
        decreases n - i,
    {
        let effect = CardEffect::get_random_effect();
        let period = random_in(lo, hi);
        if let Ok(c) = Card::new(effect, period) {
            cards.push(c);
        }
        assert forall|j: int| 0 <= j < cards@.len() implies random_card_shape(
            #[trigger] cards@[j],
            lo,
            hi,
        ) by {
            if j < i {
                assert(cards@[j] == cards@.drop_last()[j]);
            }
        }
        i += 1;
    }
    cards
}

/// Cards for a newly spawned enemy.
pub fn random_enemy_cards() -> (r: Vec<Card>)
    ensures
        enemy_cards_shape(r@),
        cards_wf(r@),
{
    random_cards(ENEMY_CARD_PERIOD, ENEMY_CARD_PERIOD + 1)
}

/// Cards for the player at the start of the game.
pub fn random_player_cards() -> (r: Vec<Card>)
    ensures
        player_cards_shape(r@),
        cards_wf(r@),
{
    random_cards(PLAYER_CARD_PERIOD_MIN, PLAYER_CARD_PERIOD_MAX)
}

/// The loot item that a rarity draw and a kind draw in `0..3` give: 0, 1
/// and 2 are common, rare and epic, and a health potion, a magic sword and
/// an ancient relic.
pub open spec fn loot_of_draws(rarity: u64, kind: u64) -> LootItem {
    LootItem {
        kind: if kind == 0 {
            LootKind::HealthPotion
        } else if kind == 1 {
            LootKind::MagicSword
        } else {
            LootKind::AncientRelic
        },
        rarity: if rarity == 0 {
            LootRarity::Common
        } else if rarity == 1 {
            LootRarity::Rare
        } else {
            LootRarity::Epic
        },
    }
}

/// A loot item that some pair of draws in `0..3` gives.
pub open spec fn drawn_loot(item: LootItem) -> bool {
    exists|rarity: u64, kind: u64| rarity < 3 && kind < 3 && item == #[trigger] loot_of_draws(rarity, kind)
}

/// The loot item that a rarity draw and a kind draw give.
pub fn loot_item_from_draws(rarity: u64, kind: u64) -> (r: LootItem)
    requires
        rarity < 3,
        kind < 3,
    ensures
        r == loot_of_draws(rarity, kind),
{
    LootItem {
        kind: if kind == 0 {
            LootKind::HealthPotion
        } else if kind == 1 {
            LootKind::MagicSword
        } else {
            LootKind::AncientRelic
        },
        rarity: if rarity == 0 {
            LootRarity::Common
        } else if rarity == 1 {
            LootRarity::Rare
        } else {
            LootRarity::Epic
        },
    }
}

/// One random loot item: the rarity and the kind each drawn uniformly.
pub fn random_loot_item() -> (r: LootItem)
    ensures
        drawn_loot(r),
{
    let rarity = random_in(0, 3);
    let kind = random_in(0, 3);
    loot_item_from_draws(rarity, kind)
}

/// The items of a loot screen.
pub fn roll_loot() -> (r: Vec<LootItem>)
    ensures
        r@.len() == LOOT_ROLL_SIZE,
        forall|i: int| 0 <= i < r@.len() ==> drawn_loot(#[trigger] r@[i]),
{
    let mut items: Vec<LootItem> = Vec::new();
    let mut i: usize = 0;
    while i < LOOT_ROLL_SIZE
        invariant
            i <= LOOT_ROLL_SIZE,
            items@.len() == i,
            forall|j: int| 0 <= j < items@.len() ==> drawn_loot(#[trigger] items@[j]),
        decreases LOOT_ROLL_SIZE - i,
    {
        let item = random_loot_item();
        items.push(item);
        assert forall|j: int| 0 <= j < items@.len() implies drawn_loot(#[trigger] items@[j]) by {
            if j < i {
                assert(items@[j] == items@.drop_last()[j]);
            }
        }
        i += 1;
    }
    items
}

/// Entering battle twice without a fall in between spawns no second enemy:
/// the second entry changes nothing.
pub proof fn lemma_battle_entry_idempotent(g: GameView, first: Seq<Card>, second: Seq<Card>)
    ensures
        g.entered_battle(first).entered_battle(second) == g.entered_battle(first),
        g.entered_battle(first).has_living_enemy(),
{
}

/// "Loot all" is a complete transfer: from the loot screen, the inventory
/// afterwards holds exactly what it held plus every loot item, duplicates
/// kept, the loot screen is empty, and the game is back in battle.
pub proof fn lemma_loot_all_transfers(g: GameView, cards: Seq<Card>)
    requires
        g.phase == GamePhase::LootScreen,
    ensures
        g.looted(cards).inventory.to_multiset() == g.inventory.to_multiset().add(
            g.loot.to_multiset(),
        ),
        g.looted(cards).loot.len() == 0,
        g.looted(cards).phase == GamePhase::Battle,
{
    vstd::seq_lib::lemma_multiset_commutative(g.inventory, g.loot);
}

/// A fall is final for the battle. While the game is in battle both sides
/// are alive. After a step in battle in which either side's health drops to
/// zero or below, the game has left battle, a fallen enemy is gone, and
/// further steps change nothing, so no attack is sent on the fallen side's
/// behalf.
pub proof fn lemma_fall_ends_battle(g: GameView, delta: nat, later: nat)
    requires
        g.wf(),
    ensures
        g.phase == GamePhase::Battle ==> g.player.is_alive() && g.has_living_enemy(),
        ({
            let g1 = g.stepped(delta);
            let player_fell = g1.player.health <= 0;
            let enemy_fell = g.enemy matches Some(e) && e.stepped(g.player, delta).health <= 0;
            g.phase == GamePhase::Battle && (player_fell || enemy_fell) ==> {
                &&& g1.phase != GamePhase::Battle
                &&& g1.stepped(later) == g1
                &&& (g1.enemy matches Some(e_after) ==> e_after.is_alive())
                &&& player_fell ==> g1.phase == GamePhase::GameOver
            }
        }),
{
}

impl Game {
    /// See [`GameView::wf`].
    pub open spec fn wf(&self) -> bool {
        self@.wf()
    }

    /// A game in battle: the player holds `player_cards` and a fresh enemy
    /// holds `enemy_cards`; loot screen and inventory are empty.
    pub fn new(player_cards: Vec<Card>, enemy_cards: Vec<Card>) -> (r: Game)
        requires
            cards_wf(player_cards@),
            cards_wf(enemy_cards@),
        ensures
            r@ == (GameView {
                phase: GamePhase::Battle,
                player: fresh_combatant(player_stats(), Some(Class::Warrior), player_cards@),
                enemy: Some(fresh_combatant(enemy_stats(), None, enemy_cards@)),
                loot: Seq::empty(),
                inventory: Seq::empty(),
            }),
            r.wf(),
    {
        Game {
            phase: GamePhase::Battle,
            player: spawn_player(player_cards),
            enemy: Some(spawn_new_enemy(enemy_cards)),
            loot: Vec::new(),
            inventory: Vec::new(),
        }
    }

    /// A new game in battle, with random cards on both sides.
    pub fn start() -> (r: Game)
        ensures
            r.wf(),
            exists|pc: Seq<Card>, ec: Seq<Card>|
                player_cards_shape(pc) && enemy_cards_shape(ec) && r@ == (GameView {
                    phase: GamePhase::Battle,
                    player: fresh_combatant(player_stats(), Some(Class::Warrior), pc),
                    enemy: Some(fresh_combatant(enemy_stats(), None, ec)),
                    loot: Seq::empty(),
                    inventory: Seq::empty(),
                }),
    {
        let player_cards = random_player_cards();
        let enemy_cards = random_enemy_cards();
        Game::new(player_cards, enemy_cards)
    }

    /// Whether a living enemy is present.
    pub fn has_living_enemy(&self) -> (r: bool)
        ensures
            r == self@.has_living_enemy(),
    {
        match &self.enemy {
            Some(e) => e.is_alive(),
            None => false,
        }
    }

    /// Battle entry: a no-op while a living enemy exists, else spawns a fresh
    /// enemy holding `cards`.
    pub fn on_enter_battle_with(&mut self, cards: Vec<Card>)
        requires
            old(self)@.parts_wf(),
            cards_wf(cards@),
        ensures
            final(self)@ == old(self)@.entered_battle(cards@),
            final(self)@.parts_wf(),
            final(self)@.has_living_enemy(),
    {
        if !self.has_living_enemy() {
            self.enemy = Some(spawn_new_enemy(cards));
        }
    }

    /// Battle entry with random cards for a new enemy; they are drawn only
    /// when one is needed.
    pub fn on_enter_battle(&mut self)
        requires
            old(self)@.parts_wf(),
        ensures
            old(self)@.has_living_enemy() ==> final(self)@ == old(self)@,
            !old(self)@.has_living_enemy() ==> exists|cards: Seq<Card>|
                enemy_cards_shape(cards) && final(self)@ == old(self)@.entered_battle(cards),
            final(self)@.parts_wf(),
            final(self)@.has_living_enemy(),
    {
        if !self.has_living_enemy() {
            let cards = random_enemy_cards();
            self.on_enter_battle_with(cards);
        }
    }

    /// One simulation step of `delta` milliseconds. In battle, combat is
    /// resolved; then a fallen player ends the game (a fallen enemy is still
    /// removed), and a fallen enemy is removed and the loot screen comes up.
    /// In any other phase nothing happens.
    pub fn battle_step(&mut self, delta: u64) -> (r: StepOutcome)
        requires
            old(self).wf(),
        ensures
            final(self)@ == old(self)@.stepped(delta as nat),
            r == old(self)@.step_outcome(delta as nat),
            final(self).wf(),
    {
        if self.phase != GamePhase::Battle {
            return StepOutcome::Idle;
        }
        let mut enemy = match self.enemy.take() {
            Some(e) => e,
            None => {
                return StepOutcome::Idle;
            },
        };
        resolve_step(&mut self.player, &mut enemy, delta);
        if self.player.health <= 0 {
            self.phase = GamePhase::GameOver;
            if enemy.health > 0 {
                self.enemy = Some(enemy);
            }
            StepOutcome::PlayerDefeated
        } else if enemy.health <= 0 {
            self.phase = GamePhase::LootScreen;
            StepOutcome::EnemyDefeated
        } else {
            self.enemy = Some(enemy);
            StepOutcome::Continue
        }
    }

    /// Fills the loot screen with `items`; in another phase nothing changes.
    pub fn spawn_loot_screen(&mut self, items: Vec<LootItem>)
        requires
            old(self).wf(),
        ensures
            final(self)@ == old(self)@.with_loot(items@),
            final(self).wf(),
    {
        if self.phase == GamePhase::LootScreen {
            self.loot = items;
        }
    }

    /// One simulation step, with a random loot roll when the enemy falls.
    pub fn advance(&mut self, delta: u64) -> (r: StepOutcome)
        requires
            old(self).wf(),
        ensures
            r == old(self)@.step_outcome(delta as nat),
            r != StepOutcome::EnemyDefeated ==> final(self)@ == old(self)@.stepped(delta as nat),
            r == StepOutcome::EnemyDefeated ==> exists|items: Seq<LootItem>|
                items.len() == LOOT_ROLL_SIZE && (forall|i: int|
                    0 <= i < items.len() ==> drawn_loot(#[trigger] items[i]))
                    && final(self)@ == old(self)@.stepped(
                    delta as nat,
                ).with_loot(items),
            final(self).wf(),
    {
        let r = self.battle_step(delta);
        if r == StepOutcome::EnemyDefeated {
            let items = roll_loot();
            self.spawn_loot_screen(items);
        }
        r
    }

    /// The inventory key: battle and menu swap; other phases ignore it.
    pub fn toggle_ui(&mut self)
        requires
            old(self).wf(),
        ensures
            final(self)@ == old(self)@.toggled(),
            final(self).wf(),
    {
        if self.phase == GamePhase::Battle {
            self.phase = GamePhase::Menu;
        } else if self.phase == GamePhase::Menu {
            self.phase = GamePhase::Battle;
        }
    }

    /// "Loot all" on the loot screen, with `cards` for the next enemy: the
    /// loot joins the inventory and battle is entered. In another phase
    /// nothing changes.
    pub fn handle_loot_all_with(&mut self, cards: Vec<Card>)
        requires
            old(self).wf(),
            cards_wf(cards@),
        ensures
            final(self)@ == old(self)@.looted(cards@),
            final(self).wf(),
    {
        if self.phase == GamePhase::LootScreen {
            self.inventory.append(&mut self.loot);
            self.phase = GamePhase::Battle;
            self.on_enter_battle_with(cards);
        }
    }

    /// "Loot all" on the loot screen, with random cards for the next enemy.
    pub fn handle_loot_all(&mut self)
        requires
            old(self).wf(),
        ensures
            old(self)@.phase != GamePhase::LootScreen ==> final(self)@ == old(self)@,
            old(self)@.phase == GamePhase::LootScreen ==> exists|cards: Seq<Card>|
                enemy_cards_shape(cards) && final(self)@ == old(self)@.looted(cards),
            final(self).wf(),
    {
        if self.phase == GamePhase::LootScreen {
            let cards = random_enemy_cards();
            self.handle_loot_all_with(cards);
        }
    }

    /// "New run" on the game-over screen, with `cards` for a new enemy if
    /// none is alive: the player's health is restored and battle is entered.
    /// In another phase nothing changes.
    pub fn new_run_with(&mut self, cards: Vec<Card>)
        requires
            old(self).wf(),
            cards_wf(cards@),
        ensures
            final(self)@ == old(self)@.restarted(cards@),
            final(self).wf(),
    {
        if self.phase == GamePhase::GameOver {
            self.player.health = FULL_HEALTH;
            self.phase = GamePhase::Battle;
            self.on_enter_battle_with(cards);
        }
    }

    /// "New run" on the game-over screen, with random cards for a new enemy
    /// if one is needed.
    pub fn new_run(&mut self)
        requires
            old(self).wf(),
        ensures
            old(self)@.phase != GamePhase::GameOver ==> final(self)@ == old(self)@,
            old(self)@.phase == GamePhase::GameOver && old(self)@.has_living_enemy()
                ==> final(self)@ == old(self)@.restarted(Seq::empty()),
            old(self)@.phase == GamePhase::GameOver && !old(self)@.has_living_enemy()
                ==> exists|cards: Seq<Card>|
                enemy_cards_shape(cards) && final(self)@ == old(self)@.restarted(cards),
            final(self).wf(),
    {
        if self.phase == GamePhase::GameOver {
            if self.has_living_enemy() {
                self.new_run_with(Vec::new());
            } else {
                let cards = random_enemy_cards();
                self.new_run_with(cards);
            }
        }
    }
}

} // verus!
