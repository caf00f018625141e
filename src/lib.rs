//! Combat resolution for a small real-time card battle game: countdowns,
//! status effects, attack scheduling with stun gating, the damage model and
//! the battle-phase state machine.
pub mod battle;
pub mod card;
pub mod combat;
pub mod countdown;
pub mod error;
mod random;
pub mod skills;
