//! Tunable constants shared by the combat engine and the roster builder.
use vstd::prelude::*;

verus! {

/// Denominator of every fraction: `2500` stands for 0.25.
pub const SCALE: i32 = 10000;

/// Largest critical chance a modifier can produce (0.99).
pub const CRITICAL_CHANCE_CAP: i32 = 9900;

/// Factor applied to an attacker's power on a critical hit.
pub const CRITICAL_MULTIPLIER: i32 = 2;

/// Least damage that a connecting hit deals.
pub const MINIMUM_DAMAGE: i32 = 10;

/// Largest damage reduction that is taken into account (0.85).
pub const MAXIMUM_DAMAGE_RESIST: i32 = 8500;

/// Least power that an ability can leave a combatant with.
pub const MINIMUM_POWER: i32 = 1;

/// Health percentage at or above which narration shows a healthy combatant.
pub const HEALTH_LEVEL_GREEN: i32 = 67;

/// Health percentage at or above which narration shows a wounded, not yet
/// critical, combatant.
pub const HEALTH_LEVEL_YELLOW: i32 = 33;

/// Number of roster slots: a two-by-two square and a pet slot.
pub const TEAM_SIZE: usize = 5;

/// Roster slots. The pet slot is reserved: no targeting rule addresses it.
pub const FRONT_LEFT: usize = 0;
pub const FRONT_RIGHT: usize = 1;
pub const BACK_LEFT: usize = 2;
pub const BACK_RIGHT: usize = 3;
pub const PET: usize = 4;

/// Bound on the rounds of one battle, the largest round number a `u64`
/// holds. Every hit deals at least `MINIMUM_DAMAGE` and a round has at least
/// one hit while both sides stand, so only abilities that heal can keep a
/// battle going this long.
pub const MAXIMUM_ROUNDS: u64 = 18446744073709551615;

} // verus!
