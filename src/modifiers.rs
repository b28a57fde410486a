//! Stat modifiers: passive auras, applied once before a battle, and
//! triggered abilities, applied during it.
use vstd::prelude::*;

use crate::configs::{CRITICAL_CHANCE_CAP, MINIMUM_POWER};
use crate::fixed::{saturate, scale_product, scale_sum, scaled_product, scaled_sum};
use crate::names::str_equal;

verus! {

/// The combatant statistic that a modifier changes.
#[derive(Clone, Copy, Debug, PartialEq, Eq, Structural)]
pub enum Statistic {
    Health,
    Power,
    CriticalChance,
    Speed,
    /// A name that no rule knows; such a modifier changes nothing.
    Unknown,
}

/// Who a modifier applies to.
#[derive(Clone, Copy, Debug, PartialEq, Eq, Structural)]
pub enum Scope {
    /// The modifier's owner alone.
    Owner,
    /// Every member of the owner's side, the owner included.
    Allies,
    /// Every member of the opposing side.
    Enemies,
    /// A name that no rule knows; such a modifier changes nothing.
    Unknown,
}

pub open spec fn statistic_kind(s: Seq<char>) -> Statistic {
    if s == "health"@ {
        Statistic::Health
    } else if s == "power"@ {
        Statistic::Power
    } else if s == "critical chance"@ {
        Statistic::CriticalChance
    } else if s == "speed"@ {
        Statistic::Speed
    } else {
        Statistic::Unknown
    }
}

pub open spec fn scope_kind(s: Seq<char>) -> Scope {
    if s == "self"@ {
        Scope::Owner
    } else if s == "allies"@ {
        Scope::Allies
    } else if s == "enemies"@ {
        Scope::Enemies
    } else {
        Scope::Unknown
    }
}

impl Statistic {
    pub fn parse(s: &str) -> (r: Statistic)
        ensures
            r == statistic_kind(s@),
    {
        if str_equal(s, "health") {
            Statistic::Health
        } else if str_equal(s, "power") {
            Statistic::Power
        } else if str_equal(s, "critical chance") {
            Statistic::CriticalChance
        } else if str_equal(s, "speed") {
            Statistic::Speed
        } else {
            Statistic::Unknown
        }
    }
}

impl Scope {
    pub fn parse(s: &str) -> (r: Scope)
        ensures
            r == scope_kind(s@),
    {
        if str_equal(s, "self") {
            Scope::Owner
        } else if str_equal(s, "allies") {
            Scope::Allies
        } else if str_equal(s, "enemies") {
            Scope::Enemies
        } else {
            Scope::Unknown
        }
    }
}

pub open spec fn min_int(a: int, b: int) -> int {
    if a <= b {
        a
    } else {
        b
    }
}

pub open spec fn max_int(a: int, b: int) -> int {
    if a >= b {
        a
    } else {
        b
    }
}

/// How a modifier transforms each statistic. Magnitudes are in units of
/// one ten-thousandth: multiplicative statistics become
/// `base * (1 + magnitude)`, speed becomes `base + magnitude`, each rounded
/// to the nearest integer (halves away from zero) and saturated into `i32`.
pub trait Apply {
    /// The modifier's magnitude.
    spec fn magnitude(&self) -> int;

    /// New health for a combatant with health `base` and maximum `max`.
    spec fn health_result(&self, base: int, max: int) -> int;

    /// New power for a combatant with power `base`.
    spec fn power_result(&self, base: int) -> int;

    fn convert_and_add(&self, base_value: i32) -> (r: i32)
        ensures
            r == saturate(scaled_sum(base_value as int, self.magnitude())),
    ;

    fn convert_and_multiply(&self, base_value: i32) -> (r: i32)
        ensures
            r == saturate(scaled_product(base_value as int, self.magnitude())),
    ;

    fn change_health(&self, base_value: i32, max_value: i32) -> (r: i32)
        ensures
            r == self.health_result(base_value as int, max_value as int),
    ;

    fn change_power(&self, base_value: i32) -> (r: i32)
        ensures
            r == self.power_result(base_value as int),
    ;

    /// Critical chance never exceeds `CRITICAL_CHANCE_CAP`.
    fn change_crit_chance(&self, base_value: i32) -> (r: i32)
        ensures
            r == min_int(
                saturate(scaled_product(base_value as int, self.magnitude())) as int,
                CRITICAL_CHANCE_CAP as int,
            ),
    ;

    fn change_speed(&self, base_value: i32) -> (r: i32)
        ensures
            r == saturate(scaled_sum(base_value as int, self.magnitude())),
    ;
}

/// A passive modifier, resolved once when a squad is formed.
#[derive(Clone, Copy, Debug, PartialEq, Eq, Structural)]
pub struct Aura {
    pub statistic: Statistic,
    pub target: Scope,
    pub value: i32,
}

impl Aura {
    pub fn new(statistic: &str, target: &str, value: i32) -> (r: Aura)
        ensures
            r == (Aura { statistic: statistic_kind(statistic@), target: scope_kind(target@), value }),
    {
        Aura { statistic: Statistic::parse(statistic), target: Scope::parse(target), value }
    }
}

impl Apply for Aura {
    open spec fn magnitude(&self) -> int {
        self.value as int
    }

    /// Auras may raise the ceiling: the maximum is not consulted.
    open spec fn health_result(&self, base: int, max: int) -> int {
        saturate(scaled_product(base, self.value as int)) as int
    }

    /// Aura power is not bounded.
    open spec fn power_result(&self, base: int) -> int {
        saturate(scaled_product(base, self.value as int)) as int
    }

    fn convert_and_add(&self, base_value: i32) -> (r: i32) {
        scale_sum(base_value, self.value)
    }

    fn convert_and_multiply(&self, base_value: i32) -> (r: i32) {
        scale_product(base_value, self.value)
    }

    fn change_health(&self, base_value: i32, _max_value: i32) -> (r: i32) {
        self.convert_and_multiply(base_value)
    }

    fn change_power(&self, base_value: i32) -> (r: i32) {
        self.convert_and_multiply(base_value)
    }

    fn change_crit_chance(&self, base_value: i32) -> (r: i32) {
        let c = self.convert_and_multiply(base_value);
        if c < CRITICAL_CHANCE_CAP {
            c
        } else {
            CRITICAL_CHANCE_CAP
        }
    }

    fn change_speed(&self, base_value: i32) -> (r: i32) {
        self.convert_and_add(base_value)
    }
}

/// A triggered modifier, applied each time its trigger event fires.
#[derive(Clone, Debug, PartialEq)]
pub struct Ability {
    pub statistic: Statistic,
    pub target: Scope,
    pub value: i32,
    pub trigger_event: String,
}

impl Ability {
    pub fn new(statistic: &str, target: &str, value: i32, event_trigger: &str) -> (r: Ability)
        ensures
            r.statistic == statistic_kind(statistic@),
            r.target == scope_kind(target@),
            r.value == value,
            r.trigger_event@ == event_trigger@,
    {
        Ability {
            statistic: Statistic::parse(statistic),
            target: Scope::parse(target),
            value,
            trigger_event: event_trigger.to_owned(),
        }
    }

    /// The ability fires on `event_trigger` exactly when that is its trigger
    /// event, character for character.
    pub fn check_ability_trigger(&self, event_trigger: &str) -> (r: bool)
        ensures
            r == (self.trigger_event@ == event_trigger@),
    {
        str_equal(self.trigger_event.as_str(), event_trigger)
    }
}

impl Apply for Ability {
    open spec fn magnitude(&self) -> int {
        self.value as int
    }

    /// Abilities heal or buff but never past the established maximum.
    open spec fn health_result(&self, base: int, max: int) -> int {
        min_int(saturate(scaled_product(base, self.value as int)) as int, max)
    }

    /// Abilities never take power below `MINIMUM_POWER`.
    open spec fn power_result(&self, base: int) -> int {
        max_int(saturate(scaled_product(base, self.value as int)) as int, MINIMUM_POWER as int)
    }

    fn convert_and_add(&self, base_value: i32) -> (r: i32) {
        scale_sum(base_value, self.value)
    }

    fn convert_and_multiply(&self, base_value: i32) -> (r: i32) {
        scale_product(base_value, self.value)
    }

    fn change_health(&self, base_value: i32, max_value: i32) -> (r: i32) {
        let h = self.convert_and_multiply(base_value);
        if h <= max_value {
            h
        } else {
            max_value
        }
    }

    fn change_power(&self, base_value: i32) -> (r: i32) {
        let p = self.convert_and_multiply(base_value);
        if p < MINIMUM_POWER {
            MINIMUM_POWER
        } else {
            p
        }
    }

    fn change_crit_chance(&self, base_value: i32) -> (r: i32) {
        let c = self.convert_and_multiply(base_value);
        if c < CRITICAL_CHANCE_CAP {
            c
        } else {
            CRITICAL_CHANCE_CAP
        }
    }

    fn change_speed(&self, base_value: i32) -> (r: i32) {
        self.convert_and_add(base_value)
    }
}

} // verus!
