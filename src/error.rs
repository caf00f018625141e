//! Errors raised when a game object is built from malformed configuration.
use vstd::prelude::*;

verus! {

/// A value that a countdown, card or combatant cannot be built from.
#[derive(Clone, Copy, Debug, PartialEq, Eq, Structural)]
pub enum ConfigError {
    /// A countdown period, effect duration or effect frequency of zero.
    ZeroPeriod,
    /// An agility of zero, which the damage model divides by.
    ZeroAgility,
}

} // verus!
