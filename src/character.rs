//! Combatants: their statistics, the damage they take, and how narration
//! reports their health.
use vstd::prelude::*;

use crate::configs::{
    HEALTH_LEVEL_GREEN, HEALTH_LEVEL_YELLOW, MAXIMUM_DAMAGE_RESIST, MINIMUM_DAMAGE, SCALE,
};
use crate::fixed::{lemma_round_div_bounds, round_div, round_div_exec, saturate, to_i32_saturating};
use crate::modifiers::{max_int, min_int, Ability, Aura};

verus! {

/// One combatant. Fractions (`critical_chance`, `dr`) are in units of one
/// ten-thousandth.
#[derive(Clone, Debug, PartialEq)]
pub struct Character {
    pub name: String,
    /// Display only.
    pub class: String,
    pub speed: i32,
    pub health: i32,
    pub health_max: i32,
    pub power: i32,
    /// Chance of a critical hit.
    pub critical_chance: i32,
    pub attack_type: String,
    /// Damage threshold: flat damage ignored after the reduction.
    pub dt: i32,
    /// Damage reduction: share of incoming damage ignored.
    pub dr: i32,
    pub tags: Vec<String>,
    pub auras: Vec<Aura>,
    pub abilities: Vec<Ability>,
    pub xp: i32,
    pub level: u32,
    pub description: String,
}

/// How narration colours a health percentage.
#[derive(Clone, Copy, Debug, PartialEq, Eq, Structural)]
pub enum HealthLevel {
    Green,
    Yellow,
    Red,
}

/// Damage reduction after the cap.
pub open spec fn effective_reduction(dr: int) -> int {
    min_int(dr, MAXIMUM_DAMAGE_RESIST as int)
}

/// Incoming power after the reduction, rounded.
pub open spec fn reduced_damage(dr: int, power: int) -> int {
    round_div((SCALE - effective_reduction(dr)) * power, SCALE as int)
}

/// Damage dealt: the reduced power less the threshold, never below
/// `MINIMUM_DAMAGE`.
pub open spec fn final_damage(dr: int, dt: int, power: int) -> int {
    max_int(reduced_damage(dr, power) - dt, MINIMUM_DAMAGE as int)
}

/// `c` after a hit of the given power; health saturates at the least `i32`.
pub open spec fn damaged(c: Character, power: int) -> Character {
    Character { health: saturate(c.health - final_damage(c.dr as int, c.dt as int, power)), ..c }
}

/// Whether a combatant with this health is dead.
pub open spec fn dead(health: int) -> bool {
    health <= 0
}

/// Remaining health as a rounded percentage of the maximum (negative health
/// counts as none; a non-positive maximum gives 0).
pub open spec fn health_percent_of(health: int, health_max: int) -> int {
    if health_max <= 0 {
        0
    } else {
        round_div(100 * max_int(health, 0), health_max)
    }
}

pub open spec fn level_of(percent: int) -> HealthLevel {
    if percent >= HEALTH_LEVEL_GREEN {
        HealthLevel::Green
    } else if percent >= HEALTH_LEVEL_YELLOW {
        HealthLevel::Yellow
    } else {
        HealthLevel::Red
    }
}

impl Character {
    /// A combatant at full health, with no experience, at level 1.
    pub fn new(
        name: &str,
        class: &str,
        speed: i32,
        health: i32,
        power: i32,
        critical_chance: i32,
        attack_type: &str,
        dt: i32,
        dr: i32,
        tags: Vec<String>,
        auras: Vec<Aura>,
        abilities: Vec<Ability>,
    ) -> (r: Character)
        ensures
            r.name@ == name@,
            r.class@ == class@,
            r.speed == speed,
            r.health == health,
            r.health_max == health,
            r.power == power,
            r.critical_chance == critical_chance,
            r.attack_type@ == attack_type@,
            r.dt == dt,
            r.dr == dr,
            r.tags == tags,
            r.auras == auras,
            r.abilities == abilities,
            r.xp == 0,
            r.level == 1,
            r.description@ == "null"@,
    {
        Character {
            name: name.to_owned(),
            class: class.to_owned(),
            speed,
            health,
            health_max: health,
            power,
            critical_chance,
            attack_type: attack_type.to_owned(),
            dt,
            dr,
            tags,
            auras,
            abilities,
            xp: 0,
            level: 1,
            description: "null".to_owned(),
        }
    }

    /// Brings health down to the maximum where it exceeds it; returns whether
    /// it did.
    pub fn validate_actor_data(&mut self) -> (corrected: bool)
        ensures
            corrected == (old(self).health > old(self).health_max),
            *final(self) == (Character {
                health: if corrected { old(self).health_max } else { old(self).health },
                ..*old(self)
            }),
    {
        if self.health > self.health_max {
            self.health = self.health_max;
            true
        } else {
            false
        }
    }

    /// Applies a hit of the given power and returns the damage dealt. The
    /// critical flag only concerns narration: the power already holds the
    /// critical multiplier.
    pub fn take_damage(&mut self, power: i32, crit: bool) -> (dealt: i64)
        ensures
            dealt == final_damage(old(self).dr as int, old(self).dt as int, power as int),
            *final(self) == damaged(*old(self), power as int),
    {
        let eff: i128 = if (self.dr as i128) < MAXIMUM_DAMAGE_RESIST as i128 {
            self.dr as i128
        } else {
            MAXIMUM_DAMAGE_RESIST as i128
        };
        let factor: i128 = SCALE as i128 - eff;
        assert(-0x1_0000_0000 <= factor <= 0x1_0000_0000);
        assert(-0x1_0000_0000_0000_0000 <= factor * power <= 0x1_0000_0000_0000_0000)
            by (nonlinear_arith)
            requires
                -0x1_0000_0000 <= factor <= 0x1_0000_0000,
                -0x8000_0000 <= power <= 0x8000_0000,
        ;
        let reduced: i128 = round_div_exec(factor * power as i128, SCALE as i128);
        proof {
            lemma_round_div_bounds(factor * power, SCALE as int);
        }
        let less_threshold: i128 = reduced - self.dt as i128;
        let actual: i128 = if less_threshold > MINIMUM_DAMAGE as i128 {
            less_threshold
        } else {
            MINIMUM_DAMAGE as i128
        };
        self.health = to_i32_saturating(self.health as i128 - actual);
        actual as i64
    }

    /// A combatant is dead exactly when its health is not positive.
    pub fn is_dead(&self) -> (r: bool)
        ensures
            r == dead(self.health as int),
    {
        self.health <= 0
    }

    /// Adds experience; a total above 10 gains a level.
    pub fn add_xp(&mut self, xp_gained: i32)
        requires
            i32::MIN <= old(self).xp + xp_gained <= i32::MAX,
            old(self).xp + xp_gained > 10 ==> old(self).level < u32::MAX,
        ensures
            *final(self) == (Character {
                xp: (old(self).xp + xp_gained) as i32,
                level: if old(self).xp + xp_gained > 10 {
                    (old(self).level + 1) as u32
                } else {
                    old(self).level
                },
                ..*old(self)
            }),
    {
        self.xp = self.xp + xp_gained;
        if self.xp > 10 {
            self.level = self.level + 1;
        }
    }

    /// Remaining health as a rounded percentage of the maximum, saturated
    /// into `i32`.
    pub fn health_percent(&self) -> (r: i32)
        ensures
            r == saturate(health_percent_of(self.health as int, self.health_max as int)),
    {
        if self.health_max <= 0 {
            0
        } else {
            let h: i128 = if self.health > 0 {
                self.health as i128
            } else {
                0
            };
            let p = round_div_exec(100 * h, self.health_max as i128);
            to_i32_saturating(p)
        }
    }
}

/// The narration colour band of a health percentage.
pub fn health_level(percent: i32) -> (r: HealthLevel)
    ensures
        r == level_of(percent as int),
{
    if percent >= HEALTH_LEVEL_GREEN {
        HealthLevel::Green
    } else if percent >= HEALTH_LEVEL_YELLOW {
        HealthLevel::Yellow
    } else {
        HealthLevel::Red
    }
}

/// Every hit deals at least `MINIMUM_DAMAGE`, whatever the target's
/// reduction and threshold.
pub proof fn lemma_damage_floor(dr: int, dt: int, power: int)
    requires
        power > 0,
    ensures
        final_damage(dr, dt, power) >= MINIMUM_DAMAGE,
{
}

/// Raising damage reduction past `MAXIMUM_DAMAGE_RESIST` does not lower the
/// damage dealt any further.
pub proof fn lemma_reduction_capped(dr1: int, dr2: int, dt: int, power: int)
    requires
        MAXIMUM_DAMAGE_RESIST <= dr1 <= dr2,
    ensures
        final_damage(dr2, dt, power) == final_damage(dr1, dt, power),
        final_damage(dr2, dt, power) == final_damage(MAXIMUM_DAMAGE_RESIST as int, dt, power),
{
}

} // verus!
