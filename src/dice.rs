//! The battle's only source of chance: uniform rolls from a seedable
//! generator.
use rand::rngs::StdRng;
use rand::Rng;
use vstd::prelude::*;

verus! {

#[verifier::external_type_specification]
#[verifier::external_body]
pub struct ExStdRng(StdRng);

/// Relies on rand's `Rng::gen_range`: a value drawn from the half-open range
/// `0..bound`, which it panics on only when empty.
#[verifier::external_body]
fn roll_below(rng: &mut StdRng, bound: i32) -> (r: i32)
    requires
        bound > 0,
    ensures
        0 <= r < bound,
{
    rng.gen_range(0..bound)
}

/// `rows` rows of `cols` rolls each, every one drawn from `0..bound`.
pub fn draw_rolls(rng: &mut StdRng, rows: usize, cols: usize, bound: i32) -> (r: Vec<Vec<i32>>)
    requires
        bound > 0,
    ensures
        r@.len() == rows,
        forall|t: int| 0 <= t < rows ==> (#[trigger] r@[t])@.len() == cols,
        forall|t: int, i: int|
            0 <= t < rows && 0 <= i < cols ==> 0 <= #[trigger] r@[t]@[i] < bound,
{
    let mut all: Vec<Vec<i32>> = Vec::new();
    let mut t: usize = 0;
    while t < rows
        invariant
            bound > 0,
            t <= rows,
            all@.len() == t,
            forall|x: int| 0 <= x < t ==> (#[trigger] all@[x])@.len() == cols,
            forall|x: int, i: int| 0 <= x < t && 0 <= i < cols ==> 0 <= #[trigger] all@[x]@[i] < bound,
        decreases rows - t,
    {
        let mut row: Vec<i32> = Vec::new();
        let mut i: usize = 0;
        while i < cols
            invariant
                bound > 0,
                i <= cols,
                row@.len() == i,
                forall|y: int| 0 <= y < i ==> 0 <= #[trigger] row@[y] < bound,
            decreases cols - i,
        {
            let r = roll_below(rng, bound);
            row.push(r);
            i += 1;
        }
        all.push(row);
        t += 1;
    }
    all
}

} // verus!
