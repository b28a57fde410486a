//! The combat engine: turns, rounds and whole battles.
//!
//! Chance enters only through critical rolls. A round is played from a table
//! of rolls, one row per turn and one roll per opposing slot; a slot's roll
//! makes the hit critical when it is below the attacker's critical chance.
use rand::rngs::StdRng;
use vstd::prelude::*;

use crate::abilities::{handle_abilities, triggered};
use crate::character::{damaged, dead, final_damage, health_percent_of, Character};
use crate::configs::{CRITICAL_MULTIPLIER, MAXIMUM_ROUNDS, SCALE};
use crate::dice::draw_rolls;
use crate::fixed::{saturate, to_i32_saturating};
use crate::initiative::{calculate_initiative, is_initiative, InitiativeEntry, Side};
use crate::targeting::{attack_kind, attack_type_to_coordinates, has_flanker, target_mask};

verus! {

/// A narration event, in the order the battle produces them.
#[derive(Clone, Copy, Debug, PartialEq, Eq, Structural)]
pub enum Event {
    /// A new round begins.
    Round { number: u64 },
    /// The combatant at `attacker` on `side` strikes slot `target` of the
    /// other side.
    Attack { side: Side, attacker: usize, target: usize },
    /// The combatant at `target` on `side` took `amount` damage and has
    /// `health_percent` of its maximum left.
    Damage { side: Side, target: usize, amount: i64, critical: bool, health_percent: i32 },
    /// The combatant at `index` on `side` died.
    Death { side: Side, index: usize },
}

pub open spec fn other(s: Side) -> Side {
    match s {
        Side::Hero => Side::Villain,
        Side::Villain => Side::Hero,
    }
}

/// Which members of a team are alive.
pub open spec fn alive_mask(team: Seq<Character>) -> Seq<bool> {
    Seq::new(team.len(), |i: int| !dead(team[i].health as int))
}

/// Whether a team has a living member.
pub open spec fn has_living(team: Seq<Character>) -> bool {
    exists|i: int| 0 <= i < team.len() && !dead(team[i].health as int)
}

/// Power of a hit: a critical hit multiplies it, saturating.
pub open spec fn raw_power(power: i32, crit: bool) -> i32 {
    if crit {
        saturate(power * CRITICAL_MULTIPLIER)
    } else {
        power
    }
}

/// The hit on slot `i` is critical: its roll exists and is below the
/// attacker's critical chance.
pub open spec fn is_crit(rolls: Seq<i32>, i: int, chance: i32) -> bool {
    0 <= i < rolls.len() && rolls[i] < chance
}

/// The slots of `enemies` that `attacker` strikes.
pub open spec fn attack_mask(attacker: Character, enemies: Seq<Character>) -> Seq<bool> {
    target_mask(attack_kind(attacker.attack_type@), alive_mask(enemies), has_flanker(attacker.tags@))
}

/// `enemies` after `attacker` strikes them with the given rolls.
pub open spec fn struck(attacker: Character, enemies: Seq<Character>, rolls: Seq<i32>) -> Seq<
    Character,
> {
    let m = attack_mask(attacker, enemies);
    Seq::new(
        enemies.len(),
        |i: int|
            if m[i] {
                damaged(
                    enemies[i],
                    raw_power(attacker.power, is_crit(rolls, i, attacker.critical_chance)) as int,
                )
            } else {
                enemies[i]
            },
    )
}

/// Narration of the hits of `attacker` (at `index` on `side`) on the first
/// `n` slots of `enemies`: for each struck slot, the attack, the damage and,
/// if the hit kills, the death.
pub open spec fn strike_events(
    side: Side,
    index: usize,
    attacker: Character,
    enemies: Seq<Character>,
    rolls: Seq<i32>,
    n: int,
) -> Seq<Event>
    decreases n,
{
    if n <= 0 {
        Seq::empty()
    } else {
        let prev = strike_events(side, index, attacker, enemies, rolls, n - 1);
        let i = n - 1;
        if attack_mask(attacker, enemies)[i] {
            let crit = is_crit(rolls, i, attacker.critical_chance);
            let p = raw_power(attacker.power, crit);
            let after = damaged(enemies[i], p as int);
            let hit = seq![
                Event::Attack { side, attacker: index, target: i as usize },
                Event::Damage {
                    side: other(side),
                    target: i as usize,
                    amount: final_damage(enemies[i].dr as int, enemies[i].dt as int, p as int) as i64,
                    critical: crit,
                    health_percent: saturate(
                        health_percent_of(after.health as int, after.health_max as int),
                    ),
                },
            ];
            if dead(after.health as int) {
                prev + hit + seq![Event::Death { side: other(side), index: i as usize }]
            } else {
                prev + hit
            }
        } else {
            prev
        }
    }
}

/// Which members of a team are alive.
pub fn living_mask(team: &Vec<Character>) -> (r: Vec<bool>)
    ensures
        r@ == alive_mask(team@),
{
    let mut mask: Vec<bool> = Vec::new();
    let mut i: usize = 0;
    while i < team.len()
        invariant
            i <= team@.len(),
            mask@ =~= alive_mask(team@).subrange(0, i as int),
        decreases team@.len() - i,
    {
        mask.push(!team[i].is_dead());
        i += 1;
    }
    mask
}

/// Whether a team has a living member.
pub fn any_alive(team: &Vec<Character>) -> (r: bool)
    ensures
        r == has_living(team@),
{
    let mut i: usize = 0;
    while i < team.len()
        invariant
            i <= team@.len(),
            forall|j: int| 0 <= j < i ==> dead(#[trigger] team@[j].health as int),
        decreases team@.len() - i,
    {
        if !team[i].is_dead() {
            return true;
        }
        i += 1;
    }
    false
}

/// `attacker`, at `index` on `side`, strikes the slots of `enemy_team` that
/// its attack shape selects among the living, each hit critical when its
/// roll is below the attacker's critical chance.
pub fn attack(
    attacker: &Character,
    side: Side,
    index: usize,
    enemy_team: &mut Vec<Character>,
    rolls: &Vec<i32>,
    events: &mut Vec<Event>,
)
    ensures
        final(enemy_team)@ == struck(*attacker, old(enemy_team)@, rolls@),
        final(events)@ == old(events)@ + strike_events(
            side,
            index,
            *attacker,
            old(enemy_team)@,
            rolls@,
            old(enemy_team)@.len() as int,
        ),
{
    let ghost before = enemy_team@;
    let ghost ev0 = events@;
    let alive = living_mask(enemy_team);
    let targets = attack_type_to_coordinates(attacker.attack_type.as_str(), alive, &attacker.tags);
    let n = enemy_team.len();
    let mut i: usize = 0;
    while i < n
        invariant
            n == enemy_team@.len() == before.len() == targets@.len(),
            i <= n,
            targets@ == attack_mask(*attacker, before),
            forall|x: int| 0 <= x < i ==> enemy_team@[x] == struck(*attacker, before, rolls@)[x],
            forall|x: int| i <= x < n ==> enemy_team@[x] == before[x],
            events@ == ev0 + strike_events(side, index, *attacker, before, rolls@, i as int),
        decreases n - i,
    {
        if targets[i] {
            let crit = i < rolls.len() && rolls[i] < attacker.critical_chance;
            let power: i32 = if crit {
                let doubled: i64 = attacker.power as i64 * CRITICAL_MULTIPLIER as i64;
                to_i32_saturating(doubled as i128)
            } else {
                attacker.power
            };
            events.push(Event::Attack { side, attacker: index, target: i });
            let amount = enemy_team[i].take_damage(power, crit);
            let percent = enemy_team[i].health_percent();
            let enemy_side = match side {
                Side::Hero => Side::Villain,
                Side::Villain => Side::Hero,
            };
            events.push(
                Event::Damage {
                    side: enemy_side,
                    target: i,
                    amount,
                    critical: crit,
                    health_percent: percent,
                },
            );
            if enemy_team[i].is_dead() {
                events.push(Event::Death { side: enemy_side, index: i });
            }
        }
        proof {
            let hit_events = strike_events(side, index, *attacker, before, rolls@, i + 1);
            assert(events@ =~= ev0 + hit_events);
        }
        i += 1;
    }
    assert(enemy_team@ =~= struck(*attacker, before, rolls@));
}

/// Both sides and the narration after the turn of `e`. A combatant that is
/// dead (or absent) when its turn comes does nothing; otherwise it strikes
/// the other side and then its `attack` abilities fire.
pub open spec fn turn(
    e: InitiativeEntry,
    heroes: Seq<Character>,
    villains: Seq<Character>,
    rolls: Seq<i32>,
) -> (Seq<Character>, Seq<Character>, Seq<Event>) {
    match e.side {
        Side::Hero => if e.index < heroes.len() && !dead(heroes[e.index as int].health as int) {
            let a = heroes[e.index as int];
            let (h, v) = triggered("attack"@, e.index as int, heroes, struck(a, villains, rolls));
            (h, v, strike_events(Side::Hero, e.index, a, villains, rolls, villains.len() as int))
        } else {
            (heroes, villains, Seq::empty())
        },
        Side::Villain => if e.index < villains.len() && !dead(
            villains[e.index as int].health as int,
        ) {
            let a = villains[e.index as int];
            let (v, h) = triggered("attack"@, e.index as int, villains, struck(a, heroes, rolls));
            (h, v, strike_events(Side::Villain, e.index, a, heroes, rolls, heroes.len() as int))
        } else {
            (heroes, villains, Seq::empty())
        },
    }
}

/// Row `t` of a roll table; a missing row holds no rolls.
pub open spec fn roll_row(rolls: Seq<Vec<i32>>, t: int) -> Seq<i32> {
    if 0 <= t < rolls.len() {
        rolls[t]@
    } else {
        Seq::empty()
    }
}

/// Both sides and the narration after the first `t` turns of a round: turns
/// take entries from the back of `order`, the `k`-th turn with row `k` of
/// `rolls`.
pub open spec fn turns(
    order: Seq<InitiativeEntry>,
    heroes: Seq<Character>,
    villains: Seq<Character>,
    rolls: Seq<Vec<i32>>,
    t: int,
) -> (Seq<Character>, Seq<Character>, Seq<Event>)
    decreases t,
{
    if t <= 0 {
        (heroes, villains, Seq::empty())
    } else {
        let (h, v, ev) = turns(order, heroes, villains, rolls, t - 1);
        let (h2, v2, ev2) = turn(order[order.len() - t], h, v, roll_row(rolls, t - 1));
        (h2, v2, ev + ev2)
    }
}

/// Both sides and the narration after a whole round.
pub open spec fn round_result(
    order: Seq<InitiativeEntry>,
    heroes: Seq<Character>,
    villains: Seq<Character>,
    rolls: Seq<Vec<i32>>,
) -> (Seq<Character>, Seq<Character>, Seq<Event>) {
    turns(order, heroes, villains, rolls, order.len() as int)
}

/// Plays the turn of `entry`.
pub fn take_turn(
    entry: InitiativeEntry,
    hero_team: &mut Vec<Character>,
    villain_team: &mut Vec<Character>,
    rolls: &Vec<i32>,
    events: &mut Vec<Event>,
)
    ensures
        ({
            let (h, v, ev) = turn(entry, old(hero_team)@, old(villain_team)@, rolls@);
            &&& final(hero_team)@ == h
            &&& final(villain_team)@ == v
            &&& final(events)@ == old(events)@ + ev
        }),
{
    let index = entry.index;
    match entry.side {
        Side::Hero => {
            if index < hero_team.len() && !hero_team[index].is_dead() {
                attack(&hero_team[index], Side::Hero, index, villain_team, rolls, events);
                handle_abilities("attack", index, hero_team, villain_team);
            }
        },
        Side::Villain => {
            if index < villain_team.len() && !villain_team[index].is_dead() {
                attack(&villain_team[index], Side::Villain, index, hero_team, rolls, events);
                handle_abilities("attack", index, villain_team, hero_team);
            }
        },
    }
}

/// Plays one round: every entry of `initiative_order`, fastest (last)
/// first, row `k` of `rolls` serving the `k`-th turn. Returns whether both
/// sides still have a living member.
pub fn run_combat_round(
    initiative_order: Vec<InitiativeEntry>,
    hero_team: &mut Vec<Character>,
    villain_team: &mut Vec<Character>,
    rolls: &Vec<Vec<i32>>,
    events: &mut Vec<Event>,
) -> (continue_combat: bool)
    ensures
        ({
            let (h, v, ev) = round_result(
                initiative_order@,
                old(hero_team)@,
                old(villain_team)@,
                rolls@,
            );
            &&& final(hero_team)@ == h
            &&& final(villain_team)@ == v
            &&& final(events)@ == old(events)@ + ev
        }),
        continue_combat == (has_living(final(hero_team)@) && has_living(final(villain_team)@)),
{
    let ghost order = initiative_order@;
    let ghost h0 = hero_team@;
    let ghost v0 = villain_team@;
    let ghost ev0 = events@;
    let mut initiative_order = initiative_order;
    let n = initiative_order.len();
    let mut t: usize = 0;
    while t < n
        invariant
            n == order.len(),
            t <= n,
            initiative_order@ == order.subrange(0, n - t),
            ({
                let (h, v, ev) = turns(order, h0, v0, rolls@, t as int);
                &&& hero_team@ == h
                &&& villain_team@ == v
                &&& events@ == ev0 + ev
            }),
        decreases n - t,
    {
        let entry = initiative_order.pop().unwrap();
        assert(entry == order[n - (t + 1)]);
        let empty: Vec<i32> = Vec::new();
        let row: &Vec<i32> = if t < rolls.len() {
            &rolls[t]
        } else {
            &empty
        };
        assert(row@ == roll_row(rolls@, t as int));
        take_turn(entry, hero_team, villain_team, row, events);
        proof {
            let (h, v, ev) = turns(order, h0, v0, rolls@, t as int);
            let (h2, v2, ev2) = turn(order[n - (t + 1)], h, v, roll_row(rolls@, t as int));
            assert(events@ =~= ev0 + (ev + ev2));
        }
        t += 1;
        assert(initiative_order@ =~= order.subrange(0, n - t));
    }
    let heroes_alive = any_alive(hero_team);
    let villains_alive = any_alive(villain_team);
    heroes_alive && villains_alive
}

/// How a battle ended.
#[derive(Clone, Copy, Debug, PartialEq, Eq, Structural)]
pub enum Outcome {
    /// Some hero lives and every villain is dead.
    HeroesWin,
    /// Some villain lives and every hero is dead.
    VillainsWin,
    /// Both sides were wiped out in the same round.
    Draw,
    /// Both sides still stand after `MAXIMUM_ROUNDS` rounds, which only
    /// abilities that heal can bring about.
    Unresolved,
}

pub open spec fn outcome_of(heroes: Seq<Character>, villains: Seq<Character>) -> Outcome {
    if has_living(heroes) && !has_living(villains) {
        Outcome::HeroesWin
    } else if !has_living(heroes) && has_living(villains) {
        Outcome::VillainsWin
    } else if !has_living(heroes) {
        Outcome::Draw
    } else {
        Outcome::Unresolved
    }
}

/// Every roll of the table lies in `0..SCALE`.
pub open spec fn fair_rolls(rolls: Seq<Vec<i32>>) -> bool {
    forall|t: int, i: int|
        0 <= t < rolls.len() && 0 <= i < rolls[t]@.len() ==> 0 <= #[trigger] rolls[t]@[i] < SCALE
}

/// A round can take `(heroes, villains)` to `(h2, v2)` with narration `ev`:
/// some fair roll table plays the round's initiative to that result.
pub open spec fn round_played(
    heroes: Seq<Character>,
    villains: Seq<Character>,
    h2: Seq<Character>,
    v2: Seq<Character>,
    ev: Seq<Event>,
) -> bool {
    exists|order: Seq<InitiativeEntry>, rolls: Seq<Vec<i32>>|
        is_initiative(order, heroes, villains) && fair_rolls(rolls) && #[trigger] round_result(
            order,
            heroes,
            villains,
            rolls,
        ) == (h2, v2, ev)
}

/// Narration of the first `n` rounds: each round's number, then its events.
pub open spec fn battle_events(rounds: Seq<Seq<Event>>, n: int) -> Seq<Event>
    decreases n,
{
    if n <= 0 {
        Seq::empty()
    } else {
        battle_events(rounds, n - 1) + seq![Event::Round { number: n as u64 }] + rounds[n - 1]
    }
}

/// `states` and `rounds` record a battle from `(heroes, villains)`: each
/// round follows from the state before it, and every round but the last
/// ended with both sides standing.
pub open spec fn battle_trace(
    states: Seq<(Seq<Character>, Seq<Character>)>,
    rounds: Seq<Seq<Event>>,
    heroes: Seq<Character>,
    villains: Seq<Character>,
) -> bool {
    &&& states.len() == rounds.len() + 1
    &&& states[0] == (heroes, villains)
    &&& forall|k: int|
        0 <= k < rounds.len() ==> #[trigger] round_played(
            states[k].0,
            states[k].1,
            states[k + 1].0,
            states[k + 1].1,
            rounds[k],
        )
    &&& forall|k: int|
        1 <= k < rounds.len() ==> has_living(#[trigger] states[k].0) && has_living(states[k].1)
}

/// Runs a battle to its end: rounds are played until a side has no living
/// member, or until `MAXIMUM_ROUNDS` rounds have been played. Critical rolls
/// are drawn from `rng`; the narration is appended to `events`.
pub fn run_combat(
    hero_team: &mut Vec<Character>,
    villain_team: &mut Vec<Character>,
    rng: &mut StdRng,
    events: &mut Vec<Event>,
) -> (outcome: Outcome)
    ensures
        outcome == outcome_of(final(hero_team)@, final(villain_team)@),
        exists|states: Seq<(Seq<Character>, Seq<Character>)>, rounds: Seq<Seq<Event>>|
            {
                &&& #[trigger] battle_trace(states, rounds, old(hero_team)@, old(villain_team)@)
                &&& 1 <= rounds.len() <= MAXIMUM_ROUNDS
                &&& states.last() == (final(hero_team)@, final(villain_team)@)
                &&& final(events)@ == old(events)@ + battle_events(rounds, rounds.len() as int)
                &&& rounds.len() < MAXIMUM_ROUNDS ==> !(has_living(final(hero_team)@)
                    && has_living(final(villain_team)@))
            },
{
    let ghost h0 = hero_team@;
    let ghost v0 = villain_team@;
    let ghost ev0 = events@;
    let ghost mut states: Seq<(Seq<Character>, Seq<Character>)> = seq![(h0, v0)];
    let ghost mut rounds: Seq<Seq<Event>> = Seq::empty();
    let mut round: u64 = 0;
    let mut go = true;
    while go && round < MAXIMUM_ROUNDS
        invariant
            round <= MAXIMUM_ROUNDS,
            rounds.len() == round,
            battle_trace(states, rounds, h0, v0),
            states.last() == (hero_team@, villain_team@),
            events@ == ev0 + battle_events(rounds, round as int),
            round == 0 ==> go,
            round > 0 ==> go == (has_living(hero_team@) && has_living(villain_team@)),
        decreases MAXIMUM_ROUNDS - round,
    {
        let ghost hb = hero_team@;
        let ghost vb = villain_team@;
        let ghost evb = events@;
        round += 1;
        events.push(Event::Round { number: round });
        let init = calculate_initiative(hero_team, villain_team);
        let cols = if hero_team.len() < villain_team.len() {
            villain_team.len()
        } else {
            hero_team.len()
        };
        let rolls = draw_rolls(rng, init.len(), cols, SCALE);
        let ghost order = init@;
        proof {
            assert(fair_rolls(rolls@));
        }
        go = run_combat_round(init, hero_team, villain_team, &rolls, events);
        proof {
            let ev = round_result(order, hb, vb, rolls@).2;
            assert(round_played(hb, vb, hero_team@, villain_team@, ev));
            let old_states = states;
            let old_rounds = rounds;
            states = states.push((hero_team@, villain_team@));
            rounds = rounds.push(ev);
            assert(battle_events(rounds, round - 1) == battle_events(old_rounds, round - 1)) by {
                lemma_battle_events_prefix(old_rounds, rounds, round - 1);
            }
            assert(events@ =~= ev0 + battle_events(rounds, round as int));
            assert forall|k: int| 0 <= k < rounds.len() implies #[trigger] round_played(
                states[k].0,
                states[k].1,
                states[k + 1].0,
                states[k + 1].1,
                rounds[k],
            ) by {
                if k < round - 1 {
                    assert(states[k] == old_states[k]);
                    assert(states[k + 1] == old_states[k + 1]);
                    assert(round_played(
                        old_states[k].0,
                        old_states[k].1,
                        old_states[k + 1].0,
                        old_states[k + 1].1,
                        old_rounds[k],
                    ));
                }
            }
            assert forall|k: int| 1 <= k < rounds.len() implies has_living(
                #[trigger] states[k].0,
            ) && has_living(states[k].1) by {
                assert(states[k] == old_states[k]);
                if k == round - 1 {
                    assert(old_states[k] == old_states.last());
                }
            }
        }
    }
    let heroes_alive = any_alive(hero_team);
    let villains_alive = any_alive(villain_team);
    let outcome = if heroes_alive && !villains_alive {
        Outcome::HeroesWin
    } else if !heroes_alive && villains_alive {
        Outcome::VillainsWin
    } else if !heroes_alive {
        Outcome::Draw
    } else {
        Outcome::Unresolved
    };
    assert(battle_trace(states, rounds, h0, v0));
    outcome
}

proof fn lemma_battle_events_prefix(a: Seq<Seq<Event>>, b: Seq<Seq<Event>>, n: int)
    requires
        0 <= n <= a.len(),
        n <= b.len(),
        forall|k: int| 0 <= k < n ==> a[k] == b[k],
    ensures
        battle_events(a, n) == battle_events(b, n),
    decreases n,
{
    if n > 0 {
        lemma_battle_events_prefix(a, b, n - 1);
    }
}

} // verus!
