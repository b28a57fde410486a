//! Squads: the ordered roster a side fields, and the passive auras applied
//! to it once when it is formed.
use vstd::prelude::*;

use crate::character::Character;
use crate::configs::CRITICAL_CHANCE_CAP;
use crate::fixed::{saturate, scaled_product, scaled_sum};
use crate::modifiers::{min_int, Apply, Aura, Scope, Statistic};

verus! {

/// `c` after one aura's change to its statistic. A health aura scales the
/// maximum and sets both current and maximum health to the result.
pub open spec fn aura_effect(c: Character, a: Aura) -> Character {
    match a.statistic {
        Statistic::Health => {
            let h = a.health_result(c.health_max as int, c.health_max as int) as i32;
            Character { health: h, health_max: h, ..c }
        },
        Statistic::Power => Character { power: a.power_result(c.power as int) as i32, ..c },
        Statistic::CriticalChance => Character {
            critical_chance: min_int(
                saturate(scaled_product(c.critical_chance as int, a.value as int)) as int,
                CRITICAL_CHANCE_CAP as int,
            ) as i32,
            ..c
        },
        Statistic::Speed => Character {
            speed: saturate(scaled_sum(c.speed as int, a.value as int)),
            ..c
        },
        Statistic::Unknown => c,
    }
}

fn apply_aura_effect(c: &mut Character, a: Aura)
    ensures
        *final(c) == aura_effect(*old(c), a),
{
    match a.statistic {
        Statistic::Health => {
            let h = a.change_health(c.health_max, c.health_max);
            c.health_max = h;
            c.health = h;
        },
        Statistic::Power => {
            c.power = a.change_power(c.power);
        },
        Statistic::CriticalChance => {
            c.critical_chance = a.change_crit_chance(c.critical_chance);
        },
        Statistic::Speed => {
            c.speed = a.change_speed(c.speed);
        },
        Statistic::Unknown => {},
    }
}

/// The names of a squad's members, in slot order.
pub struct SquadConstructor {
    pub members: Vec<String>,
}

impl SquadConstructor {
    pub fn new(members: Vec<String>) -> (r: SquadConstructor)
        ensures
            r.members == members,
    {
        SquadConstructor { members }
    }
}

/// `c` after, in order, those of `auras` that apply to their owner.
pub open spec fn owner_auras(c: Character, auras: Seq<Aura>) -> Character
    decreases auras.len(),
{
    if auras.len() == 0 {
        c
    } else {
        let p = owner_auras(c, auras.drop_last());
        if auras.last().target == Scope::Owner {
            aura_effect(p, auras.last())
        } else {
            p
        }
    }
}

/// Those of `auras` that apply to the whole side, in order.
pub open spec fn allies_of(auras: Seq<Aura>) -> Seq<Aura>
    decreases auras.len(),
{
    if auras.len() == 0 {
        Seq::empty()
    } else {
        let p = allies_of(auras.drop_last());
        if auras.last().target == Scope::Allies {
            p.push(auras.last())
        } else {
            p
        }
    }
}

/// The side-wide auras of a squad, member by member in roster order.
pub open spec fn party_auras(squad: Seq<Character>) -> Seq<Aura>
    decreases squad.len(),
{
    if squad.len() == 0 {
        Seq::empty()
    } else {
        party_auras(squad.drop_last()) + allies_of(squad.last().auras@)
    }
}

/// Every member after one aura.
pub open spec fn aura_to_all(squad: Seq<Character>, a: Aura) -> Seq<Character> {
    Seq::new(squad.len(), |i: int| aura_effect(squad[i], a))
}

/// Every member after, in order, each of `auras`.
pub open spec fn auras_to_all(squad: Seq<Character>, auras: Seq<Aura>) -> Seq<Character>
    decreases auras.len(),
{
    if auras.len() == 0 {
        squad
    } else {
        aura_to_all(auras_to_all(squad, auras.drop_last()), auras.last())
    }
}

/// Each member after its own owner-scoped auras.
pub open spec fn with_owner_auras(squad: Seq<Character>) -> Seq<Character> {
    Seq::new(squad.len(), |i: int| owner_auras(squad[i], squad[i].auras@))
}

/// A squad after its auras: first every member's owner-scoped auras, then
/// every side-wide aura on every member.
pub open spec fn with_auras(squad: Seq<Character>) -> Seq<Character> {
    auras_to_all(with_owner_auras(squad), party_auras(squad))
}

/// Applies the squad's passive auras, once, before any battle.
pub fn apply_auras(squad: Vec<Character>) -> (r: Vec<Character>)
    ensures
        r@ == with_auras(squad@),
{
    let ghost orig = squad@;
    let mut squad = squad;
    let mut shared: Vec<Aura> = Vec::new();
    let n = squad.len();
    let mut i: usize = 0;
    while i < n
        invariant
            n == orig.len() == squad@.len(),
            i <= n,
            shared@ == party_auras(orig.subrange(0, i as int)),
            forall|j: int| 0 <= j < i ==> squad@[j] == owner_auras(orig[j], orig[j].auras@),
            forall|j: int| i <= j < n ==> squad@[j] == orig[j],
        decreases n - i,
    {
        let m = squad[i].auras.len();
        let mut k: usize = 0;
        while k < m
            invariant
                n == orig.len() == squad@.len(),
                i < n,
                k <= m == orig[i as int].auras@.len(),
                squad@[i as int] == owner_auras(orig[i as int], orig[i as int].auras@.subrange(0, k as int)),
                squad@[i as int].auras == orig[i as int].auras,
                shared@ == party_auras(orig.subrange(0, i as int)) + allies_of(
                    orig[i as int].auras@.subrange(0, k as int),
                ),
                forall|j: int| 0 <= j < i ==> squad@[j] == owner_auras(orig[j], orig[j].auras@),
                forall|j: int| i < j < n ==> squad@[j] == orig[j],
            decreases m - k,
        {
            let a = squad[i].auras[k];
            let ghost auras = orig[i as int].auras@;
            assert(auras.subrange(0, k + 1).drop_last() =~= auras.subrange(0, k as int));
            if a.target == Scope::Owner {
                apply_aura_effect(&mut squad[i], a);
            } else if a.target == Scope::Allies {
                shared.push(a);
                assert(shared@ =~= party_auras(orig.subrange(0, i as int)) + allies_of(
                    auras.subrange(0, k + 1),
                ));
            }
            k += 1;
        }
        proof {
            let auras = orig[i as int].auras@;
            assert(auras.subrange(0, m as int) =~= auras);
            assert(orig.subrange(0, i + 1).drop_last() =~= orig.subrange(0, i as int));
        }
        i += 1;
    }
    assert(orig.subrange(0, n as int) =~= orig);
    let ghost own = squad@;
    assert(own =~= with_owner_auras(orig));
    let t_len = shared.len();
    let mut t: usize = 0;
    while t < t_len
        invariant
            n == orig.len() == squad@.len(),
            t <= t_len == shared@.len(),
            shared@ == party_auras(orig),
            own == with_owner_auras(orig),
            squad@ == auras_to_all(own, shared@.subrange(0, t as int)),
        decreases t_len - t,
    {
        let a = shared[t];
        let ghost before = squad@;
        let mut j: usize = 0;
        while j < n
            invariant
                n == squad@.len() == before.len(),
                j <= n,
                forall|x: int| 0 <= x < j ==> squad@[x] == aura_effect(before[x], a),
                forall|x: int| j <= x < n ==> squad@[x] == before[x],
            decreases n - j,
        {
            apply_aura_effect(&mut squad[j], a);
            j += 1;
        }
        assert(shared@.subrange(0, t + 1).drop_last() =~= shared@.subrange(0, t as int));
        assert(squad@ =~= aura_to_all(before, a));
        t += 1;
    }
    assert(shared@.subrange(0, t_len as int) =~= shared@);
    squad
}

} // verus!
