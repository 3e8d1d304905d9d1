//! Weighted selection of a prize from an ordered list of weights.
//!
//! Weights are points on a scale of [`SCALE`]. What the prizes leave of the
//! scale is the weight of winning nothing.

use vstd::prelude::*;

verus! {

/// The number of points that the weights are measured against.
pub const SCALE: i128 = 100;

/// The weight that a stored probability counts for: negative ones count as zero.
pub open spec fn weight(probability: i32) -> int {
    if probability > 0 {
        probability as int
    } else {
        0
    }
}

/// The sum of the first `k` weights.
pub open spec fn cumulative(probabilities: Seq<i32>, k: int) -> int
    decreases k,
{
    if k <= 0 {
        0
    } else {
        cumulative(probabilities, k - 1) + weight(probabilities[k - 1])
    }
}

/// The sum of all weights.
pub open spec fn total_weight(probabilities: Seq<i32>) -> int {
    cumulative(probabilities, probabilities.len() as int)
}

/// The weight of winning nothing: what the prizes leave of the scale.
pub open spec fn no_win_weight(total: int) -> int {
    if total < SCALE as int {
        SCALE as int - total
    } else {
        0
    }
}

/// The largest roll that may be drawn; rolls start at 1.
pub open spec fn roll_ceiling(total: int) -> int {
    let span = total + no_win_weight(total);
    if span < 1 {
        1
    } else {
        span
    }
}

/// Whether `roll` lies within the bounds computed from the weights.
pub open spec fn roll_in_bounds(probabilities: Seq<i32>, roll: int) -> bool {
    1 <= roll <= roll_ceiling(total_weight(probabilities))
}

/// Whether prize `i` is the first whose cumulative weight reaches `roll`:
/// its own reaches it, and that of the prize before it, if there is one,
/// does not. Cumulative weights never decrease, so no earlier prize reaches
/// the roll either.
pub open spec fn is_winner(probabilities: Seq<i32>, roll: int, i: int) -> bool {
    &&& 0 <= i < probabilities.len()
    &&& roll <= cumulative(probabilities, i + 1)
    &&& i > 0 ==> cumulative(probabilities, i) < roll
}

/// The outcome of a roll: the index of the winning prize, or `None` for no win.
pub open spec fn winner(probabilities: Seq<i32>, roll: int) -> Option<int> {
    if exists|i: int| is_winner(probabilities, roll, i) {
        Some(choose|i: int| is_winner(probabilities, roll, i))
    } else {
        None
    }
}

/// Cumulative weights are monotone in the number of prizes counted.
pub proof fn lemma_cumulative_monotone(probabilities: Seq<i32>, j: int, k: int)
    requires
        0 <= j <= k <= probabilities.len(),
    ensures
        cumulative(probabilities, j) <= cumulative(probabilities, k),
    decreases k - j,
{
    if j < k {
        lemma_cumulative_monotone(probabilities, j, k - 1);
    }
}

/// At most one prize wins a roll.
pub proof fn lemma_winner_unique(probabilities: Seq<i32>, roll: int, i: int, j: int)
    requires
        is_winner(probabilities, roll, i),
        is_winner(probabilities, roll, j),
    ensures
        i == j,
{
    if i < j {
        lemma_cumulative_monotone(probabilities, i + 1, j);
    }
    if j < i {
        lemma_cumulative_monotone(probabilities, j + 1, i);
    }
}

/// No prize before the winner reaches the roll.
pub proof fn lemma_winner_is_first(probabilities: Seq<i32>, roll: int, i: int, k: int)
    requires
        is_winner(probabilities, roll, i),
        0 <= k < i,
    ensures
        cumulative(probabilities, k + 1) < roll,
{
    lemma_cumulative_monotone(probabilities, k + 1, i);
}

/// A roll wins a prize exactly when it does not exceed the total weight.
pub proof fn lemma_winner_exists(probabilities: Seq<i32>, roll: int)
    ensures
        winner(probabilities, roll) is Some <==> probabilities.len() > 0 && roll <= total_weight(
            probabilities,
        ),
        winner(probabilities, roll) matches Some(i) ==> is_winner(probabilities, roll, i),
{
    if probabilities.len() > 0 && roll <= total_weight(probabilities) {
        let i = lemma_first_reaching(probabilities, roll, probabilities.len() as int);
        assert(is_winner(probabilities, roll, i));
    }
    if exists|i: int| is_winner(probabilities, roll, i) {
        let i = choose|i: int| is_winner(probabilities, roll, i);
        lemma_cumulative_monotone(probabilities, i + 1, probabilities.len() as int);
    }
}

/// The rolls that win a prize: prize `i` wins exactly the rolls above the
/// cumulative weight of the prizes before it and up to its own, which are as
/// many as its weight. The rolls above the total weight win nothing.
pub proof fn lemma_winning_rolls(probabilities: Seq<i32>, i: int, roll: int)
    requires
        0 <= i < probabilities.len(),
        1 <= roll,
    ensures
        winner(probabilities, roll) == Some(i) <==> cumulative(probabilities, i) < roll
            <= cumulative(probabilities, i + 1),
        cumulative(probabilities, i + 1) - cumulative(probabilities, i) == weight(probabilities[i]),
{
    lemma_winner_exists(probabilities, roll);
    if cumulative(probabilities, i) < roll <= cumulative(probabilities, i + 1) {
        assert(is_winner(probabilities, roll, i));
        lemma_winner_unique(probabilities, roll, i, winner(probabilities, roll).unwrap());
    }
    if winner(probabilities, roll) == Some(i) {
        assert(is_winner(probabilities, roll, i));
    }
}

/// Among the first `k` prizes, if the cumulative weight reaches `roll`, one of
/// them is the first to do so.
proof fn lemma_first_reaching(probabilities: Seq<i32>, roll: int, k: int) -> (i: int)
    requires
        0 < k <= probabilities.len(),
        roll <= cumulative(probabilities, k),
    ensures
        0 <= i < k,
        is_winner(probabilities, roll, i),
    decreases k,
{
    if k > 1 && roll <= cumulative(probabilities, k - 1) {
        lemma_first_reaching(probabilities, roll, k - 1)
    } else {
        k - 1
    }
}

/// The weight that a stored probability counts for.
pub fn clamp_weight(probability: i32) -> (w: i128)
    ensures
        w == weight(probability),
{
    if probability > 0 {
        probability as i128
    } else {
        0
    }
}

/// Sums the weights of all prizes.
pub fn sum_weights(probabilities: &Vec<i32>) -> (total: i128)
    ensures
        total == total_weight(probabilities@),
        0 <= total <= probabilities.len() * 0x7fff_ffff,
{
    let mut total: i128 = 0;
    let mut i: usize = 0;
    while i < probabilities.len()
        invariant
            i <= probabilities.len(),
            total == cumulative(probabilities@, i as int),
            0 <= total <= i * 0x7fff_ffff,
        decreases probabilities.len() - i,
    {
        total = total + clamp_weight(probabilities[i]);
        i = i + 1;
    }
    total
}

/// The largest roll to draw for a given total weight.
pub fn roll_limit(total: i128) -> (limit: i128)
    ensures
        limit == roll_ceiling(total as int),
        limit >= 1,
{
    if total < SCALE {
        SCALE
    } else {
        total
    }
}

/// Whether `roll` lies within the bounds computed from the weights.
pub fn in_bounds(probabilities: &Vec<i32>, roll: i128) -> (ok: bool)
    ensures
        ok == roll_in_bounds(probabilities@, roll as int),
{
    1 <= roll && roll <= roll_limit(sum_weights(probabilities))
}

/// Walks the prizes in order and returns the first whose cumulative weight
/// reaches `roll`, or `None` if none does.
pub fn select(probabilities: &Vec<i32>, roll: i128) -> (picked: Option<usize>)
    ensures
        match picked {
            Some(i) => winner(probabilities@, roll as int) == Some(i as int) && is_winner(
                probabilities@,
                roll as int,
                i as int,
            ),
            None => winner(probabilities@, roll as int) is None && (probabilities.len() == 0
                || total_weight(probabilities@) < roll),
        },
{
    let mut acc: i128 = 0;
    let mut i: usize = 0;
    while i < probabilities.len()
        invariant
            i <= probabilities.len(),
            acc == cumulative(probabilities@, i as int),
            0 <= acc <= i * 0x7fff_ffff,
            i > 0 ==> cumulative(probabilities@, i as int) < roll,
        decreases probabilities.len() - i,
    {
        acc = acc + clamp_weight(probabilities[i]);
        if roll <= acc {
            proof {
                lemma_winner_exists(probabilities@, roll as int);
                lemma_cumulative_monotone(
                    probabilities@,
                    i as int + 1,
                    probabilities.len() as int,
                );
                lemma_winner_unique(
                    probabilities@,
                    roll as int,
                    i as int,
                    winner(probabilities@, roll as int).unwrap(),
                );
            }
            return Some(i);
        }
        i = i + 1;
    }
    proof {
        lemma_winner_exists(probabilities@, roll as int);
    }
    None
}

} // verus!
