//! Turn-based battles between two fixed-size rosters of combatants.
//!
//! Fractional quantities (critical chance, damage reduction, modifier
//! magnitudes) are held as integers in units of one ten-thousandth, so that
//! every rule of the combat engine is exact integer arithmetic.

pub mod abilities;
pub mod character;
pub mod combat;
pub mod configs;
pub mod dice;
pub mod fixed;
pub mod initiative;
pub mod modifiers;
pub mod names;
pub mod squad;
pub mod targeting;
