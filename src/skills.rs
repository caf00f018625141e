//! Combatant statistics and the damage model.
//!
//! The damage model turns an attacker's and a defender's stats and a roll
//! into the damage of a stat-driven attack, dodged or not. Card attacks
//! (`combat::resolve_step`) do not go through it: a card carries its own
//! amount, which is applied as it stands, so that combat resolution is a
//! function of the state and the step lengths alone, with no chance in it.
use vstd::prelude::*;
use crate::error::ConfigError;
use crate::random::random_in;

verus! {

/// A combatant's base statistics.
#[derive(Clone, Copy, Debug, Default, PartialEq, Eq, Structural)]
pub struct Stats {
    pub strength: usize,
    pub agility: usize,
    pub stamina: usize,
    pub perception: usize,
    pub intelligence: usize,
}

/// A combatant's class.
#[derive(Clone, Copy, Debug, PartialEq, Eq, Structural)]
pub enum Class {
    Warrior,
    Rogue,
    Mage,
    Healer,
    Assassin,
}

/// Numerator of the dodge coefficient (the coefficient is one tenth).
pub const DODGE_COEFFICIENT_NUM: u64 = 1;

/// Denominator of the dodge coefficient.
pub const DODGE_COEFFICIENT_DEN: u64 = 10;

/// Dodge chances and rolls are counted in thousandths.
pub const ROLL_SCALE: u64 = 1000;

impl Stats {
    /// Stats that the damage model can divide by.
    pub open spec fn wf(self) -> bool {
        self.agility >= 1
    }

    /// Builds stats, refusing an agility of zero.
    pub fn new(
        strength: usize,
        agility: usize,
        stamina: usize,
        perception: usize,
        intelligence: usize,
    ) -> (r: Result<Stats, ConfigError>)
        ensures
            agility == 0 <==> r is Err,
            r matches Err(e) ==> e == ConfigError::ZeroAgility,
            r matches Ok(s) ==> s.wf() && s == (Stats {
                strength,
                agility,
                stamina,
                perception,
                intelligence,
            }),
    {
        if agility == 0 {
            Err(ConfigError::ZeroAgility)
        } else {
            Ok(Stats { strength, agility, stamina, perception, intelligence })
        }
    }
}

/// The chance, in thousandths, that a defender dodges an attacker:
/// `defender_agility / attacker_agility * coefficient`, rounded down and
/// capped at a certainty.
pub open spec fn dodge_chance_of(attacker_agility: nat, defender_agility: nat) -> nat
    recommends
        attacker_agility >= 1,
{
    let c = (defender_agility * (DODGE_COEFFICIENT_NUM as nat) * (ROLL_SCALE as nat)) / (
    attacker_agility * (DODGE_COEFFICIENT_DEN as nat));
    if c > ROLL_SCALE {
        ROLL_SCALE as nat
    } else {
        c
    }
}

/// The damage dealt for a roll in `[0, ROLL_SCALE)`: nothing when the roll
/// falls under the dodge chance, else `base * strength / defender agility`
/// rounded down.
pub open spec fn damage_of(base_damage: nat, attacker: Stats, defender: Stats, roll: nat) -> nat
    recommends
        attacker.wf(),
        defender.wf(),
{
    if roll < dodge_chance_of(attacker.agility as nat, defender.agility as nat) {
        0
    } else {
        (base_damage * (attacker.strength as nat)) / (defender.agility as nat)
    }
}

/// How many of the rolls `0, 1, .., n - 1` let an attack deal damage.
pub open spec fn hits_below(base_damage: nat, attacker: Stats, defender: Stats, n: nat) -> nat
    decreases n,
{
    if n == 0 {
        0
    } else {
        hits_below(base_damage, attacker, defender, (n - 1) as nat) + if damage_of(
            base_damage,
            attacker,
            defender,
            (n - 1) as nat,
        ) > 0 {
            1nat
        } else {
            0nat
        }
    }
}

proof fn lemma_hits_below(base_damage: nat, attacker: Stats, defender: Stats, n: nat)
    requires
        defender.wf(),
        (base_damage * (attacker.strength as nat)) / (defender.agility as nat) > 0,
    ensures
        ({
            let c = dodge_chance_of(attacker.agility as nat, defender.agility as nat);
            hits_below(base_damage, attacker, defender, n) == if n <= c {
                0
            } else {
                (n - c) as nat
            }
        }),
    decreases n,
{
    if n > 0 {
        lemma_hits_below(base_damage, attacker, defender, (n - 1) as nat);
    }
}

/// Dodging is bounded and fixed by agility: the chance depends on the two
/// agilities alone and never exceeds a certainty, and where an attack that
/// is not dodged does damage, exactly `ROLL_SCALE - chance` of the
/// `ROLL_SCALE` equally likely rolls deal it, so hits come at the rate
/// `1 - chance`.
pub proof fn lemma_dodge_rate(
    base_damage: nat,
    attacker: Stats,
    defender: Stats,
    other_attacker: Stats,
    other_defender: Stats,
)
    requires
        attacker.wf(),
        defender.wf(),
        other_attacker.agility == attacker.agility,
        other_defender.agility == defender.agility,
    ensures
        dodge_chance_of(other_attacker.agility as nat, other_defender.agility as nat)
            == dodge_chance_of(attacker.agility as nat, defender.agility as nat),
        dodge_chance_of(attacker.agility as nat, defender.agility as nat) <= ROLL_SCALE,
        (base_damage * (attacker.strength as nat)) / (defender.agility as nat) > 0 ==> hits_below(
            base_damage,
            attacker,
            defender,
            ROLL_SCALE as nat,
        ) == ROLL_SCALE - dodge_chance_of(attacker.agility as nat, defender.agility as nat),
{
    if (base_damage * (attacker.strength as nat)) / (defender.agility as nat) > 0 {
        lemma_hits_below(base_damage, attacker, defender, ROLL_SCALE as nat);
    }
}

/// The chance, in thousandths, that `defender` dodges an attack of `attacker`.
pub fn dodge_chance(attacker: &Stats, defender: &Stats) -> (r: u64)
    requires
        attacker.wf(),
    ensures
        r == dodge_chance_of(attacker.agility as nat, defender.agility as nat),
        r <= ROLL_SCALE,
{
    let a: u128 = defender.agility as u128;
    assert(a * DODGE_COEFFICIENT_NUM * ROLL_SCALE <= 0xffff_ffff_ffff_ffff_ffff_ffff_ffff_ffff)
        by (nonlinear_arith)
        requires
            a <= 0xffff_ffff_ffff_ffff,
            DODGE_COEFFICIENT_NUM == 1,
            ROLL_SCALE == 1000,
    ;
    let num: u128 = a * DODGE_COEFFICIENT_NUM as u128 * ROLL_SCALE as u128;
    let den: u128 = attacker.agility as u128 * DODGE_COEFFICIENT_DEN as u128;
    let c: u128 = num / den;
    if c > ROLL_SCALE as u128 {
        ROLL_SCALE
    } else {
        c as u64
    }
}

/// The damage of one attack for a given roll in `[0, ROLL_SCALE)`.
pub fn effective_damage(base_damage: u64, attacker: &Stats, defender: &Stats, roll: u64) -> (r:
    u128)
    requires
        attacker.wf(),
        defender.wf(),
    ensures
        r == damage_of(base_damage as nat, *attacker, *defender, roll as nat),
{
    let chance = dodge_chance(attacker, defender);
    if roll < chance {
        0
    } else {
        let b: u128 = base_damage as u128;
        let s: u128 = attacker.strength as u128;
        assert(b * s <= 0xffff_ffff_ffff_ffff_ffff_ffff_ffff_ffff) by (nonlinear_arith)
            requires
                b <= 0xffff_ffff_ffff_ffff,
                s <= 0xffff_ffff_ffff_ffff,
        ;
        let p: u128 = b * s;
        p / (defender.agility as u128)
    }
}

/// The damage of one attack, with the roll drawn at random.
pub fn roll_damage(base_damage: u64, attacker: &Stats, defender: &Stats) -> (r: u128)
    requires
        attacker.wf(),
        defender.wf(),
    ensures
        exists|roll: nat|
            roll < ROLL_SCALE && r == damage_of(base_damage as nat, *attacker, *defender, roll),
{
    let roll = random_in(0, ROLL_SCALE);
    effective_damage(base_damage, attacker, defender, roll)
}

} // verus!
