//! Targeting: which opposing slots an attack strikes.
//!
//! Slots are laid out as a square plus a reserved pet slot: the front row is
//! `FRONT_LEFT`/`FRONT_RIGHT`, the back row `BACK_LEFT`/`BACK_RIGHT`. A slot
//! past the end of the liveness mask counts as empty.
use vstd::prelude::*;

use crate::configs::{BACK_LEFT, BACK_RIGHT, FRONT_LEFT, FRONT_RIGHT};
use crate::names::str_equal;

verus! {

/// The shape of an attack.
#[derive(Clone, Copy, Debug, PartialEq, Eq, Structural)]
pub enum AttackType {
    Single,
    Row,
    Column,
    All,
}

/// Attack shape named by a string; anything unrecognised is a single-target
/// attack.
pub open spec fn attack_kind(s: Seq<char>) -> AttackType {
    if s == "row"@ {
        AttackType::Row
    } else if s == "column"@ {
        AttackType::Column
    } else if s == "all"@ {
        AttackType::All
    } else {
        AttackType::Single
    }
}

/// Whether a tag list marks its owner as a flanker.
pub open spec fn has_flanker(tags: Seq<String>) -> bool {
    exists|k: int| 0 <= k < tags.len() && (#[trigger] tags[k])@ == "flanker"@
}

/// Slot `i` exists in the mask and holds a living combatant.
pub open spec fn alive_at(alive: Seq<bool>, i: int) -> bool {
    0 <= i < alive.len() && alive[i]
}

/// The living members of the pair `(a, b)` if either of them lives, else the
/// living members of the pair `(c, d)`.
pub open spec fn pair_mask(alive: Seq<bool>, a: int, b: int, c: int, d: int) -> Seq<bool> {
    let first = alive_at(alive, a) || alive_at(alive, b);
    Seq::new(
        alive.len(),
        |i: int| alive[i] && (if first { i == a || i == b } else { i == c || i == d }),
    )
}

/// Slot `i` is the first living slot.
pub open spec fn first_living(alive: Seq<bool>, i: int) -> bool {
    alive_at(alive, i) && forall|j: int| 0 <= j < i ==> !(#[trigger] alive[j])
}

/// Slot `i` is the last living slot.
pub open spec fn last_living(alive: Seq<bool>, i: int) -> bool {
    alive_at(alive, i) && forall|j: int| i < j < alive.len() ==> !(#[trigger] alive[j])
}

/// The target mask of an attack of shape `kind` against the liveness mask
/// `alive`, by an attacker that is or is not a flanker.
pub open spec fn target_mask(kind: AttackType, alive: Seq<bool>, flanker: bool) -> Seq<bool> {
    match kind {
        AttackType::Row => if flanker {
            pair_mask(
                alive,
                BACK_LEFT as int,
                BACK_RIGHT as int,
                FRONT_LEFT as int,
                FRONT_RIGHT as int,
            )
        } else {
            pair_mask(
                alive,
                FRONT_LEFT as int,
                FRONT_RIGHT as int,
                BACK_LEFT as int,
                BACK_RIGHT as int,
            )
        },
        AttackType::Column => pair_mask(
            alive,
            FRONT_LEFT as int,
            BACK_LEFT as int,
            FRONT_RIGHT as int,
            BACK_RIGHT as int,
        ),
        AttackType::All => alive,
        AttackType::Single => if flanker {
            Seq::new(alive.len(), |i: int| last_living(alive, i))
        } else {
            Seq::new(alive.len(), |i: int| first_living(alive, i))
        },
    }
}

impl AttackType {
    /// Reads an attack shape; unrecognised names give `Single`.
    pub fn parse(s: &str) -> (r: AttackType)
        ensures
            r == attack_kind(s@),
    {
        if str_equal(s, "row") {
            AttackType::Row
        } else if str_equal(s, "column") {
            AttackType::Column
        } else if str_equal(s, "all") {
            AttackType::All
        } else {
            AttackType::Single
        }
    }
}

/// Whether the tag list holds the `flanker` tag.
pub fn is_flanker(tags: &Vec<String>) -> (r: bool)
    ensures
        r == has_flanker(tags@),
{
    let mut k: usize = 0;
    while k < tags.len()
        invariant
            k <= tags@.len(),
            forall|j: int| 0 <= j < k ==> (#[trigger] tags@[j])@ != "flanker"@,
        decreases tags@.len() - k,
    {
        if str_equal(tags[k].as_str(), "flanker") {
            return true;
        }
        k += 1;
    }
    false
}

fn alive_slot(alive: &Vec<bool>, i: usize) -> (r: bool)
    ensures
        r == alive_at(alive@, i as int),
{
    i < alive.len() && alive[i]
}

/// Mask of the living members of the pair `(a, b)`, or of `(c, d)` when
/// neither of the first pair lives.
fn select_pair(alive: &Vec<bool>, a: usize, b: usize, c: usize, d: usize) -> (r: Vec<bool>)
    ensures
        r@ == pair_mask(alive@, a as int, b as int, c as int, d as int),
{
    let first = alive_slot(alive, a) || alive_slot(alive, b);
    let mut targets: Vec<bool> = Vec::new();
    let mut i: usize = 0;
    while i < alive.len()
        invariant
            i <= alive@.len(),
            first == (alive_at(alive@, a as int) || alive_at(alive@, b as int)),
            targets@ =~= pair_mask(alive@, a as int, b as int, c as int, d as int).subrange(
                0,
                i as int,
            ),
        decreases alive@.len() - i,
    {
        let hit = if first {
            alive[i] && (i == a || i == b)
        } else {
            alive[i] && (i == c || i == d)
        };
        targets.push(hit);
        i += 1;
    }
    targets
}

/// Mask that holds only the first living slot (or only the last one, for
/// `from_back`), or no slot when nobody lives.
fn select_single(alive: &Vec<bool>, from_back: bool) -> (r: Vec<bool>)
    ensures
        r@ == (if from_back {
            Seq::new(alive@.len(), |i: int| last_living(alive@, i))
        } else {
            Seq::new(alive@.len(), |i: int| first_living(alive@, i))
        }),
{
    let n = alive.len();
    let mut chosen: usize = n;
    if from_back {
        let mut k: usize = n;
        while k > 0 && chosen == n
            invariant
                k <= n == alive@.len(),
                chosen <= n,
                chosen < n ==> last_living(alive@, chosen as int),
                chosen == n ==> forall|j: int| k <= j < n ==> !(#[trigger] alive@[j]),
            decreases k,
        {
            if alive[k - 1] {
                chosen = k - 1;
            }
            k -= 1;
        }
        assert(chosen < n ==> last_living(alive@, chosen as int));
        assert(chosen == n ==> forall|j: int| 0 <= j < n ==> !(#[trigger] alive@[j]));
    } else {
        let mut k: usize = 0;
        while k < n && chosen == n
            invariant
                k <= n == alive@.len(),
                chosen <= n,
                chosen < n ==> first_living(alive@, chosen as int),
                chosen == n ==> forall|j: int| 0 <= j < k ==> !(#[trigger] alive@[j]),
            decreases n - k,
        {
            if alive[k] {
                chosen = k;
            }
            k += 1;
        }
        assert(chosen < n ==> first_living(alive@, chosen as int));
        assert(chosen == n ==> forall|j: int| 0 <= j < n ==> !(#[trigger] alive@[j]));
    }
    let ghost spec_mask = if from_back {
        Seq::new(alive@.len(), |i: int| last_living(alive@, i))
    } else {
        Seq::new(alive@.len(), |i: int| first_living(alive@, i))
    };
    assert forall|i: int| 0 <= i < n implies spec_mask[i] == (i == chosen) by {
        if from_back {
            if last_living(alive@, i) && i != chosen {
                if chosen < n {
                    if i < chosen {
                        assert(!alive@[chosen as int]);
                    } else {
                        assert(!alive@[i]);
                    }
                } else {
                    assert(!alive@[i]);
                }
            }
        } else {
            if first_living(alive@, i) && i != chosen {
                if chosen < n {
                    if i < chosen {
                        assert(!alive@[i]);
                    } else {
                        assert(!alive@[chosen as int]);
                    }
                } else {
                    assert(!alive@[i]);
                }
            }
        }
    }
    let mut targets: Vec<bool> = Vec::new();
    let mut i: usize = 0;
    while i < n
        invariant
            i <= n == alive@.len(),
            spec_mask.len() == n,
            forall|j: int| 0 <= j < n ==> spec_mask[j] == (j == chosen),
            targets@ =~= spec_mask.subrange(0, i as int),
        decreases n - i,
    {
        targets.push(i == chosen);
        i += 1;
    }
    targets
}

/// The slots of the opposing roster that an attack strikes, one entry per
/// entry of `alive_targets`.
///
/// - `row`: the living members of the front row, or of the back row when the
///   front row is empty; flankers try the back row first.
/// - `column`: the living members of the left column, or of the right column
///   when the left column is empty.
/// - `all`: every living slot.
/// - anything else: the first living slot (the last one, for flankers).
pub fn attack_type_to_coordinates(
    attack_type: &str,
    alive_targets: Vec<bool>,
    attacker_tags: &Vec<String>,
) -> (r: Vec<bool>)
    ensures
        r@ == target_mask(attack_kind(attack_type@), alive_targets@, has_flanker(attacker_tags@)),
{
    let kind = AttackType::parse(attack_type);
    let flanker = is_flanker(attacker_tags);
    match kind {
        AttackType::Row => {
            if flanker {
                select_pair(&alive_targets, BACK_LEFT, BACK_RIGHT, FRONT_LEFT, FRONT_RIGHT)
            } else {
                select_pair(&alive_targets, FRONT_LEFT, FRONT_RIGHT, BACK_LEFT, BACK_RIGHT)
            }
        },
        AttackType::Column => {
            select_pair(&alive_targets, FRONT_LEFT, BACK_LEFT, FRONT_RIGHT, BACK_RIGHT)
        },
        AttackType::All => alive_targets,
        AttackType::Single => select_single(&alive_targets, flanker),
    }
}

/// An attack's mask has one entry per slot and never strikes an empty slot,
/// whatever its shape.
pub proof fn lemma_targets_are_living(kind: AttackType, alive: Seq<bool>, flanker: bool)
    ensures
        target_mask(kind, alive, flanker).len() == alive.len(),
        forall|i: int|
            0 <= i < alive.len() && #[trigger] target_mask(kind, alive, flanker)[i] ==> alive[i],
{
}

/// A single-target attack against a roster with a living member strikes
/// exactly one slot.
pub proof fn lemma_single_strikes_one(alive: Seq<bool>, flanker: bool)
    requires
        exists|i: int| 0 <= i < alive.len() && alive[i],
    ensures
        exists|i: int|
            0 <= i < alive.len() && #[trigger] target_mask(AttackType::Single, alive, flanker)[i]
                && forall|j: int|
                0 <= j < alive.len() && j != i ==> !#[trigger] target_mask(
                    AttackType::Single,
                    alive,
                    flanker,
                )[j],
{
    let m = target_mask(AttackType::Single, alive, flanker);
    let w = choose|i: int| 0 <= i < alive.len() && alive[i];
    if flanker {
        let last = choose_last(alive, w);
        assert(m[last]);
        assert forall|j: int| 0 <= j < alive.len() && j != last implies !m[j] by {
            if m[j] {
                if j < last {
                    assert(!alive[last]);
                } else {
                    assert(!alive[j]);
                }
            }
        }
    } else {
        let first = choose_first(alive, w);
        assert(m[first]);
        assert forall|j: int| 0 <= j < alive.len() && j != first implies !m[j] by {
            if m[j] {
                if j < first {
                    assert(!alive[j]);
                } else {
                    assert(!alive[first]);
                }
            }
        }
    }
}

proof fn choose_first(alive: Seq<bool>, w: int) -> (f: int)
    requires
        alive_at(alive, w),
    ensures
        first_living(alive, f),
    decreases w,
{
    if exists|j: int| 0 <= j < w && alive[j] {
        let j = choose|j: int| 0 <= j < w && alive[j];
        choose_first(alive, j)
    } else {
        w
    }
}

proof fn choose_last(alive: Seq<bool>, w: int) -> (l: int)
    requires
        alive_at(alive, w),
    ensures
        last_living(alive, l),
    decreases alive.len() - w,
{
    if exists|j: int| w < j < alive.len() && alive[j] {
        let j = choose|j: int| w < j < alive.len() && alive[j];
        choose_last(alive, j)
    } else {
        w
    }
}

/// A row attack strikes slots of one row only, and a column attack slots of
/// one column only.
pub proof fn lemma_row_and_column_stay_in_line(alive: Seq<bool>, flanker: bool)
    ensures
        ({
            let m = target_mask(AttackType::Row, alive, flanker);
            (forall|i: int| 0 <= i < m.len() && #[trigger] m[i] ==> i == FRONT_LEFT || i == FRONT_RIGHT)
                || (forall|i: int| 0 <= i < m.len() && #[trigger] m[i] ==> i == BACK_LEFT || i == BACK_RIGHT)
        }),
        ({
            let m = target_mask(AttackType::Column, alive, flanker);
            (forall|i: int| 0 <= i < m.len() && #[trigger] m[i] ==> i == FRONT_LEFT || i == BACK_LEFT)
                || (forall|i: int| 0 <= i < m.len() && #[trigger] m[i] ==> i == FRONT_RIGHT || i == BACK_RIGHT)
        }),
{
}

} // verus!
