//! Scores: signed 16-bit centipawn values seen from the side to move.

use vstd::prelude::*;

verus! {

/// A search or evaluation score.
pub type ScoreTy = i16;

/// The lowest score in use. One above the smallest `i16`, so that every score
/// can be negated.
pub const N_INF: ScoreTy = -32767;

/// The highest score in use: the negation of [`N_INF`].
pub const P_INF: ScoreTy = 32767;

/// The score of a side that has been mated, seen by that side.
pub const MATED: ScoreTy = -32766;

/// The largest magnitude that the evaluation of an unfinished game can reach.
pub const EVAL_LIMIT: ScoreTy = 32000;

/// A score that some line of play has produced: strictly inside the outermost
/// window.
pub open spec fn is_value(s: int) -> bool {
    MATED <= s <= -MATED
}

/// A search window: two scores, the lower strictly below the upper.
pub open spec fn is_window(alpha: int, beta: int) -> bool {
    N_INF <= alpha < beta <= P_INF
}

/// The larger of two scores.
pub fn max_score(a: ScoreTy, b: ScoreTy) -> (m: ScoreTy)
    ensures
        m == if a >= b { a } else { b },
{
    if a >= b {
        a
    } else {
        b
    }
}

/// The smaller of two scores.
pub fn min_score(a: ScoreTy, b: ScoreTy) -> (m: ScoreTy)
    ensures
        m == if a <= b { a } else { b },
{
    if a <= b {
        a
    } else {
        b
    }
}

} // verus!
