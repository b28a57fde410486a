//! Initiative: the order in which living combatants act within a round.
//!
//! Entries are sorted ascending by speed and consumed from the back, so the
//! fastest combatant acts first. Ties keep the order in which entries are
//! collected: heroes before villains, then by roster slot.
use vstd::prelude::*;

use crate::character::{dead, Character};

verus! {

/// The two sides of a battle.
#[derive(Clone, Copy, Debug, PartialEq, Eq, Structural)]
pub enum Side {
    Hero,
    Villain,
}

/// One combatant's place in a round: its speed, side and roster slot.
#[derive(Clone, Copy, Debug, PartialEq, Eq, Structural)]
pub struct InitiativeEntry {
    pub speed: i32,
    pub side: Side,
    pub index: usize,
}

pub open spec fn side_rank(s: Side) -> int {
    match s {
        Side::Hero => 0,
        Side::Villain => 1,
    }
}

/// `a` is collected before `b`: heroes first, then by slot.
pub open spec fn slot_before(a: InitiativeEntry, b: InitiativeEntry) -> bool {
    side_rank(a.side) < side_rank(b.side) || (a.side == b.side && a.index < b.index)
}

/// `a` stands before `b` in an initiative order.
pub open spec fn precedes(a: InitiativeEntry, b: InitiativeEntry) -> bool {
    a.speed < b.speed || (a.speed == b.speed && slot_before(a, b))
}

pub open spec fn sorted_entries(s: Seq<InitiativeEntry>) -> bool {
    forall|i: int, j: int| 0 <= i < j < s.len() ==> #[trigger] precedes(s[i], s[j])
}

/// `e` names a living member of `team`, on side `side`, with its speed.
pub open spec fn living_entry(team: Seq<Character>, side: Side, e: InitiativeEntry) -> bool {
    e.side == side && e.index < team.len() && !dead(team[e.index as int].health as int)
        && e.speed == team[e.index as int].speed
}

pub open spec fn entry_of(
    heroes: Seq<Character>,
    villains: Seq<Character>,
    e: InitiativeEntry,
) -> bool {
    living_entry(heroes, Side::Hero, e) || living_entry(villains, Side::Villain, e)
}

/// `order` is the initiative of a round between `heroes` and `villains`:
/// each living combatant exactly once, sorted by speed and, among equal
/// speeds, by collection order.
pub open spec fn is_initiative(
    order: Seq<InitiativeEntry>,
    heroes: Seq<Character>,
    villains: Seq<Character>,
) -> bool {
    &&& sorted_entries(order)
    &&& forall|k: int| 0 <= k < order.len() ==> entry_of(heroes, villains, #[trigger] order[k])
    &&& forall|e: InitiativeEntry|
        entry_of(heroes, villains, e) ==> exists|k: int| 0 <= k < order.len() && order[k] == e
}

/// Inserts `e` after every entry that does not outrun it.
fn insert_entry(order: &mut Vec<InitiativeEntry>, e: InitiativeEntry)
    requires
        sorted_entries(old(order)@),
        forall|k: int| 0 <= k < old(order)@.len() ==> slot_before(#[trigger] old(order)@[k], e),
    ensures
        sorted_entries(final(order)@),
        final(order)@.len() == old(order)@.len() + 1,
        forall|k: int|
            0 <= k < final(order)@.len() ==> (#[trigger] final(order)@[k] == e || exists|m: int|
                0 <= m < old(order)@.len() && old(order)@[m] == final(order)@[k]),
        exists|k: int| 0 <= k < final(order)@.len() && final(order)@[k] == e,
        forall|m: int|
            0 <= m < old(order)@.len() ==> exists|k: int|
                0 <= k < final(order)@.len() && final(order)@[k] == #[trigger] old(order)@[m],
{
    let ghost before = order@;
    let n = order.len();
    let mut p: usize = 0;
    while p < n && order[p].speed <= e.speed
        invariant
            p <= n == order@.len(),
            order@ == before,
            forall|k: int| 0 <= k < p ==> (#[trigger] order@[k]).speed <= e.speed,
        decreases n - p,
    {
        p += 1;
    }
    order.insert(p, e);
    proof {
        before.insert_ensures(p as int, e);
        let after = order@;
        assert forall|i: int, j: int| 0 <= i < j < after.len() implies #[trigger] precedes(
            after[i],
            after[j],
        ) by {
            if j < p {
                assert(precedes(before[i], before[j]));
            } else if j == p {
                assert(slot_before(before[i], e));
            } else if i < p {
                assert(precedes(before[i], before[j - 1]));
            } else if i == p {
                assert(before[p as int].speed > e.speed);
                if j - 1 > p {
                    assert(precedes(before[p as int], before[j - 1]));
                }
            } else {
                assert(precedes(before[i - 1], before[j - 1]));
            }
        }
        assert forall|k: int| 0 <= k < after.len() implies (#[trigger] after[k] == e || exists|
            m: int,
        | 0 <= m < before.len() && before[m] == after[k]) by {
            if k < p {
                assert(before[k] == after[k]);
            } else if k > p {
                assert(before[k - 1] == after[k]);
            }
        }
        assert(after[p as int] == e);
        assert forall|m: int| 0 <= m < before.len() implies exists|k: int|
            0 <= k < after.len() && after[k] == #[trigger] before[m] by {
            if m < p {
                assert(after[m] == before[m]);
            } else {
                assert(after[m + 1] == before[m]);
            }
        }
    }
}

/// The initiative of a round: every living combatant of both sides, sorted
/// ascending by speed, ties in collection order.
pub fn calculate_initiative(
    hero_team: &Vec<Character>,
    villain_team: &Vec<Character>,
) -> (r: Vec<InitiativeEntry>)
    ensures
        is_initiative(r@, hero_team@, villain_team@),
{
    let mut order: Vec<InitiativeEntry> = Vec::new();
    let mut i: usize = 0;
    while i < hero_team.len()
        invariant
            i <= hero_team@.len(),
            sorted_entries(order@),
            forall|k: int|
                0 <= k < order@.len() ==> living_entry(hero_team@, Side::Hero, #[trigger] order@[k])
                    && order@[k].index < i,
            forall|e: InitiativeEntry|
                living_entry(hero_team@, Side::Hero, e) && e.index < i ==> exists|k: int|
                    0 <= k < order@.len() && order@[k] == e,
        decreases hero_team@.len() - i,
    {
        if !hero_team[i].is_dead() {
            let e = InitiativeEntry { speed: hero_team[i].speed, side: Side::Hero, index: i };
            let ghost prev = order@;
            insert_entry(&mut order, e);
            proof {
                assert forall|x: InitiativeEntry|
                    living_entry(hero_team@, Side::Hero, x) && x.index < i + 1 implies exists|k: int|
                    0 <= k < order@.len() && order@[k] == x by {
                    if x.index < i {
                        let m = choose|m: int| 0 <= m < prev.len() && prev[m] == x;
                        assert(exists|k: int| 0 <= k < order@.len() && order@[k] == prev[m]);
                    } else {
                        assert(x == e);
                    }
                }
            }
        }
        i += 1;
    }
    let mut j: usize = 0;
    while j < villain_team.len()
        invariant
            j <= villain_team@.len(),
            sorted_entries(order@),
            forall|k: int|
                0 <= k < order@.len() ==> (living_entry(hero_team@, Side::Hero, #[trigger] order@[k])
                    || (living_entry(villain_team@, Side::Villain, order@[k]) && order@[k].index < j)),
            forall|e: InitiativeEntry|
                (living_entry(hero_team@, Side::Hero, e) || (living_entry(
                    villain_team@,
                    Side::Villain,
                    e,
                ) && e.index < j)) ==> exists|k: int| 0 <= k < order@.len() && order@[k] == e,
        decreases villain_team@.len() - j,
    {
        if !villain_team[j].is_dead() {
            let e = InitiativeEntry { speed: villain_team[j].speed, side: Side::Villain, index: j };
            let ghost prev = order@;
            insert_entry(&mut order, e);
            proof {
                assert forall|x: InitiativeEntry|
                    (living_entry(hero_team@, Side::Hero, x) || (living_entry(
                        villain_team@,
                        Side::Villain,
                        x,
                    ) && x.index < j + 1)) implies exists|k: int|
                    0 <= k < order@.len() && order@[k] == x by {
                    if x != e {
                        let m = choose|m: int| 0 <= m < prev.len() && prev[m] == x;
                        assert(exists|k: int| 0 <= k < order@.len() && order@[k] == prev[m]);
                    }
                }
            }
        }
        j += 1;
    }
    order
}

/// Initiative is ascending by speed, so the entry consumed first (the last)
/// is a fastest combatant.
pub proof fn lemma_initiative_ascending(
    order: Seq<InitiativeEntry>,
    heroes: Seq<Character>,
    villains: Seq<Character>,
)
    requires
        is_initiative(order, heroes, villains),
    ensures
        forall|i: int, j: int| 0 <= i < j < order.len() ==> order[i].speed <= order[j].speed,
        order.len() > 0 ==> forall|i: int|
            0 <= i < order.len() ==> #[trigger] order[i].speed <= order.last().speed,
{
    assert forall|i: int, j: int| 0 <= i < j < order.len() implies order[i].speed
        <= order[j].speed by {
        assert(precedes(order[i], order[j]));
    }
    if order.len() > 0 {
        assert forall|i: int| 0 <= i < order.len() implies #[trigger] order[i].speed
            <= order.last().speed by {
            if i < order.len() - 1 {
                assert(precedes(order[i], order[order.len() - 1]));
            }
        }
    }
}

} // verus!
