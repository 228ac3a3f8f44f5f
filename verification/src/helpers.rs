//! Small helpers shared by the evaluator and the search.

use crate::position::{BoardStatus, Color, Position};
use crate::score::ScoreTy;
use vstd::prelude::*;

verus! {

pub use crate::score::N_INF;
pub use crate::score::P_INF;

/// The sign that turns a score seen by White into one seen by `color`.
pub open spec fn sign_of(color: Color) -> int {
    match color {
        Color::White => 1,
        Color::Black => -1,
    }
}

/// Whether the game has ended: the side to move has no legal move.
pub fn game_over(board: Position) -> (over: bool)
    ensures
        over == (board.status_of() != BoardStatus::Ongoing),
        over == (board.moves().len() == 0),
{
    match board.status() {
        BoardStatus::Ongoing => false,
        BoardStatus::Stalemate => true,
        BoardStatus::Checkmate => true,
    }
}

/// `1` for White, `-1` for Black.
pub fn color_to_num(color: Color) -> (sign: ScoreTy)
    ensures
        sign == sign_of(color),
{
    match color {
        Color::White => 1,
        Color::Black => -1,
    }
}

} // verus!
