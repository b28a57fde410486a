//! Triggered abilities: the stat changes a combatant's abilities make when
//! their trigger event fires during a battle.
use vstd::prelude::*;

use crate::character::Character;
use crate::configs::CRITICAL_CHANCE_CAP;
use crate::fixed::{saturate, scaled_product, scaled_sum};
use crate::modifiers::{min_int, Ability, Apply, Scope, Statistic};
use crate::names::str_equal;

verus! {

/// `c` after one ability's change to its statistic, as `Apply` defines it
/// for abilities: health is scaled and capped at the current maximum, which
/// stays as it is; power never drops below `MINIMUM_POWER`; critical chance
/// never exceeds `CRITICAL_CHANCE_CAP`.
pub open spec fn ability_effect(c: Character, ab: Ability) -> Character {
    match ab.statistic {
        Statistic::Health => Character {
            health: ab.health_result(c.health as int, c.health_max as int) as i32,
            ..c
        },
        Statistic::Power => Character { power: ab.power_result(c.power as int) as i32, ..c },
        Statistic::CriticalChance => Character {
            critical_chance: min_int(
                saturate(scaled_product(c.critical_chance as int, ab.magnitude())) as int,
                CRITICAL_CHANCE_CAP as int,
            ) as i32,
            ..c
        },
        Statistic::Speed => Character {
            speed: saturate(scaled_sum(c.speed as int, ab.magnitude())),
            ..c
        },
        Statistic::Unknown => c,
    }
}

/// Every member of `team` after one ability's change.
pub open spec fn team_effect(team: Seq<Character>, ab: Ability) -> Seq<Character> {
    Seq::new(team.len(), |i: int| ability_effect(team[i], ab))
}

/// Both sides after one ability of the member at `source` of `allies`:
/// an `Allies` ability changes every member of the owner's side (the owner
/// included), an `Enemies` ability every member of the other side, an
/// `Owner` ability the owner alone.
pub open spec fn ability_step(
    allies: Seq<Character>,
    enemies: Seq<Character>,
    source: int,
    ab: Ability,
) -> (Seq<Character>, Seq<Character>) {
    match ab.target {
        Scope::Allies => (team_effect(allies, ab), enemies),
        Scope::Enemies => (allies, team_effect(enemies, ab)),
        Scope::Owner => (allies.update(source, ability_effect(allies[source], ab)), enemies),
        Scope::Unknown => (allies, enemies),
    }
}

/// Both sides after, in order, each of `abs` whose trigger event is
/// `trigger`.
pub open spec fn abilities_fired(
    allies: Seq<Character>,
    enemies: Seq<Character>,
    source: int,
    abs: Seq<Ability>,
    trigger: Seq<char>,
) -> (Seq<Character>, Seq<Character>)
    decreases abs.len(),
{
    if abs.len() == 0 {
        (allies, enemies)
    } else {
        let (a, e) = abilities_fired(allies, enemies, source, abs.drop_last(), trigger);
        if abs.last().trigger_event@ == trigger {
            ability_step(a, e, source, abs.last())
        } else {
            (a, e)
        }
    }
}

/// Both sides after the event `trigger` of the member at `source` of
/// `allies`. Only `attack` has an effect: the owner's abilities bound to it
/// fire in order.
pub open spec fn triggered(
    trigger: Seq<char>,
    source: int,
    allies: Seq<Character>,
    enemies: Seq<Character>,
) -> (Seq<Character>, Seq<Character>) {
    if trigger == "attack"@ && 0 <= source < allies.len() {
        abilities_fired(allies, enemies, source, allies[source].abilities@, trigger)
    } else {
        (allies, enemies)
    }
}

/// A copy of an ability, so that it can be applied while its owner's side
/// is being changed.
fn copy_ability(ab: &Ability) -> (r: Ability)
    ensures
        r == *ab,
{
    Ability {
        statistic: ab.statistic,
        target: ab.target,
        value: ab.value,
        trigger_event: ab.trigger_event.clone(),
    }
}

fn apply_ability_effect(c: &mut Character, ab: &Ability)
    ensures
        *final(c) == ability_effect(*old(c), *ab),
{
    match ab.statistic {
        Statistic::Health => {
            c.health = ab.change_health(c.health, c.health_max);
        },
        Statistic::Power => {
            c.power = ab.change_power(c.power);
        },
        Statistic::CriticalChance => {
            c.critical_chance = ab.change_crit_chance(c.critical_chance);
        },
        Statistic::Speed => {
            c.speed = ab.change_speed(c.speed);
        },
        Statistic::Unknown => {},
    }
}

fn apply_to_team(team: &mut Vec<Character>, ab: &Ability)
    ensures
        final(team)@ == team_effect(old(team)@, *ab),
{
    let ghost before = team@;
    let n = team.len();
    let mut j: usize = 0;
    while j < n
        invariant
            n == team@.len() == before.len(),
            j <= n,
            forall|x: int| 0 <= x < j ==> team@[x] == ability_effect(before[x], *ab),
            forall|x: int| j <= x < n ==> team@[x] == before[x],
        decreases n - j,
    {
        apply_ability_effect(&mut team[j], ab);
        j += 1;
    }
    assert(team@ =~= team_effect(before, *ab));
}

/// Fires the abilities of the member at `source` of `allied_team` that are
/// bound to the event `trigger`, in order, each time it is called.
pub fn handle_abilities(
    trigger: &str,
    source: usize,
    allied_team: &mut Vec<Character>,
    enemy_team: &mut Vec<Character>,
)
    ensures
        (final(allied_team)@, final(enemy_team)@) == triggered(
            trigger@,
            source as int,
            old(allied_team)@,
            old(enemy_team)@,
        ),
{
    if !str_equal(trigger, "attack") || source >= allied_team.len() {
        return ;
    }
    let ghost a0 = allied_team@;
    let ghost e0 = enemy_team@;
    let ghost abs = a0[source as int].abilities@;
    let m = allied_team[source].abilities.len();
    let mut k: usize = 0;
    while k < m
        invariant
            source < allied_team@.len() == a0.len(),
            enemy_team@.len() == e0.len(),
            m == abs.len(),
            k <= m,
            abs == a0[source as int].abilities@,
            allied_team@[source as int].abilities@ == abs,
            forall|x: int| 0 <= x < allied_team@.len() ==> (#[trigger] allied_team@[x]).abilities
                == a0[x].abilities,
            forall|x: int| 0 <= x < enemy_team@.len() ==> (#[trigger] enemy_team@[x]).abilities
                == e0[x].abilities,
            (allied_team@, enemy_team@) == abilities_fired(
                a0,
                e0,
                source as int,
                abs.subrange(0, k as int),
                trigger@,
            ),
        decreases m - k,
    {
        assert(abs.subrange(0, k + 1).drop_last() =~= abs.subrange(0, k as int));
        let fires = allied_team[source].abilities[k].check_ability_trigger(trigger);
        if fires {
            let ab = copy_ability(&allied_team[source].abilities[k]);
            match ab.target {
                Scope::Allies => apply_to_team(allied_team, &ab),
                Scope::Enemies => apply_to_team(enemy_team, &ab),
                Scope::Owner => apply_ability_effect(&mut allied_team[source], &ab),
                Scope::Unknown => {},
            }
        }
        k += 1;
    }
    assert(abs.subrange(0, m as int) =~= abs);
}

/// An allies-scoped power ability bound to `attack` fires once for each
/// attack of its owner and is not used up: after one attack every member of
/// the owner's side has had it applied once, the owner still holds it, and
/// the next attack applies it again.
pub proof fn lemma_ability_refires(
    allies: Seq<Character>,
    enemies: Seq<Character>,
    source: int,
    ab: Ability,
)
    requires
        0 <= source < allies.len(),
        allies[source].abilities@ == seq![ab],
        ab.trigger_event@ == "attack"@,
        ab.target == Scope::Allies,
        ab.statistic == Statistic::Power,
    ensures
        ({
            let (a1, e1) = triggered("attack"@, source, allies, enemies);
            &&& a1 == team_effect(allies, ab)
            &&& e1 == enemies
            &&& a1[source].abilities == allies[source].abilities
            &&& triggered("attack"@, source, a1, e1) == (
                team_effect(a1, ab),
                e1,
            )
        }),
{
    let abs = allies[source].abilities@;
    assert(abs.drop_last() =~= Seq::<Ability>::empty());
    assert(abs.last() == ab);
    assert(abilities_fired(allies, enemies, source, abs.drop_last(), "attack"@) == (
        allies,
        enemies,
    ));
    let a1 = team_effect(allies, ab);
    assert(triggered("attack"@, source, allies, enemies) == (a1, enemies));
    assert(a1[source].abilities == allies[source].abilities);
    assert(abilities_fired(a1, enemies, source, abs.drop_last(), "attack"@) == (a1, enemies));
}

} // verus!
