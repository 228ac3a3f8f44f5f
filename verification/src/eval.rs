//! Static evaluation: material, pairs of minor pieces and rooks, and mobility,
//! scored for the side to move.

use crate::helpers::{color_to_num, sign_of};
use crate::position::{other_side, position_passed, BoardStatus, Color, Piece, Position};
use crate::score::{ScoreTy, EVAL_LIMIT, MATED};
use vstd::prelude::*;

verus! {

/// What a queen is worth.
pub const QUEEN_WT: ScoreTy = 975;

/// What a rook is worth.
pub const ROOK_WT: ScoreTy = 500;

/// What a bishop is worth.
pub const BISHOP_WT: ScoreTy = 335;

/// What a knight is worth.
pub const KNIGHT_WT: ScoreTy = 325;

/// What a pawn is worth.
pub const PAWN_WT: ScoreTy = 100;

/// What a king is worth when it takes or is taken in move ordering.
pub const KING_WT: ScoreTy = 1500;

/// Below this much material of its own, a side is in an endgame.
pub const ENDGAME_MAT: i32 = 1300;

/// The adjustment for an odd number of rooks.
pub const ROOK_PAIR: i32 = -16;

/// The adjustment for an odd number of knights.
pub const KNIGHT_PAIR: i32 = -8;

/// The adjustment for an odd number of bishops.
pub const BISHOP_PAIR: i32 = 30;

/// What a legal move is worth.
pub const MOBILITY_WT: i32 = 1;

/// The mobility credited to a side whose moves cannot be counted because the
/// other side, being in check, cannot pass.
pub const MOBILITY_UNKNOWN: i32 = 20;

/// No position has more legal moves than this; longer lists count as this many.
pub const MOVE_LIMIT: usize = 256;

/// What a piece is worth.
pub open spec fn worth(piece: Piece) -> int {
    match piece {
        Piece::Pawn => 100,
        Piece::Knight => 325,
        Piece::Bishop => 335,
        Piece::Rook => 500,
        Piece::Queen => 975,
        Piece::King => 1500,
    }
}

/// What the evaluation reads of one side: how many of each piece it has and
/// how many moves.
pub struct SideTally {
    pub queens: nat,
    pub rooks: nat,
    pub bishops: nat,
    pub knights: nat,
    pub pawns: nat,
    pub mobility: int,
}

/// The material of a side: each piece at its weight, the king not counted.
pub open spec fn material_in(t: SideTally) -> int {
    975 * (t.queens as int) + 500 * (t.rooks as int) + 335 * (t.bishops as int) + 325 * (
        t.knights as int) + 100 * (t.pawns as int)
}

/// The adjustment for an odd number of bishops, of knights and of rooks.
pub open spec fn pairs_in(t: SideTally) -> int {
    ((t.bishops % 2) as int) * 30 + ((t.knights % 2) as int) * (-8) + ((t.rooks % 2) as int) * (-16)
}

/// A side's total: material, pair adjustments and mobility.
pub open spec fn side_total(t: SideTally) -> int {
    material_in(t) + pairs_in(t) + t.mobility
}

/// A score brought inside the range kept for unfinished games.
pub open spec fn bounded(x: int) -> int {
    if x > EVAL_LIMIT {
        EVAL_LIMIT as int
    } else if x < -EVAL_LIMIT {
        -EVAL_LIMIT
    } else {
        x
    }
}

/// The score of an unfinished game for `mover`: White's total less Black's,
/// negated for Black, and kept inside the evaluation range.
pub open spec fn mover_score(mover: Color, white: SideTally, black: SideTally) -> int {
    bounded((side_total(white) - side_total(black)) * sign_of(mover))
}

/// The moves that `color` would have in `pos`: the legal moves if it is to
/// move; else those after the other side has passed, or 20 if it cannot pass.
/// A count above 256 is taken as 256.
pub open spec fn mobility_of(pos: Position, color: Color) -> int {
    if crate::position::mover_of(pos) == color {
        capped(pos.moves().len())
    } else {
        match position_passed(pos) {
            Some(passed) => capped(passed.moves().len()),
            None => 20,
        }
    }
}

/// A move count, held to the move limit.
pub open spec fn capped(count: nat) -> int {
    if count > MOVE_LIMIT {
        MOVE_LIMIT as int
    } else {
        count as int
    }
}

/// What the evaluation reads of `color` in `pos`.
pub open spec fn tally_of(pos: Position, color: Color) -> SideTally {
    SideTally {
        queens: pos.count(Piece::Queen, color),
        rooks: pos.count(Piece::Rook, color),
        bishops: pos.count(Piece::Bishop, color),
        knights: pos.count(Piece::Knight, color),
        pawns: pos.count(Piece::Pawn, color),
        mobility: mobility_of(pos, color),
    }
}

/// The static score of a position, seen by the side to move: the mated score
/// in checkmate, zero in stalemate, else the bounded balance of the two sides.
pub open spec fn evaluation(pos: Position) -> int {
    match pos.status_of() {
        BoardStatus::Ongoing => mover_score(
            crate::position::mover_of(pos),
            tally_of(pos, Color::White),
            tally_of(pos, Color::Black),
        ),
        BoardStatus::Checkmate => MATED as int,
        BoardStatus::Stalemate => 0,
    }
}

/// The static score as a score.
pub open spec fn static_score(pos: Position) -> ScoreTy {
    evaluation(pos) as ScoreTy
}

/// Whether the side to move has less material than an endgame allows.
pub open spec fn endgame(pos: Position) -> bool {
    material_in(tally_of(pos, crate::position::mover_of(pos))) < ENDGAME_MAT
}

/// Colour reflection with the mover's colour kept: hand each side the other's
/// pieces and moves, and the score of an unfinished game is negated.
pub proof fn lemma_swapped_sides_negate(mover: Color, white: SideTally, black: SideTally)
    ensures
        mover_score(mover, black, white) == -mover_score(mover, white, black),
{
}

/// Colour reflection with the move handed over too: the position looks to the
/// new mover as it looked to the old, so White's view of it is negated.
pub proof fn lemma_mirror_keeps_mover_score(mover: Color, white: SideTally, black: SideTally)
    ensures
        mover_score(other_side(mover), black, white) == mover_score(mover, white, black),
        mover_score(other_side(mover), black, white) * sign_of(other_side(mover)) == -(mover_score(
            mover,
            white,
            black,
        ) * sign_of(mover)),
{
    let gap = side_total(white) - side_total(black);
    assert(gap * 1 == gap && gap * (-1) == -gap && (-gap) * 1 == -gap && (-gap) * (-1) == gap);
    let seen = mover_score(mover, white, black);
    assert(seen * 1 == seen && seen * (-1) == -seen);
}

/// Antisymmetry under colour reflection: where two unfinished games have the
/// same side to move, and each side of the one has the pieces and the moves
/// that the other side has in the other, their scores are each other's
/// negation.
pub proof fn lemma_evaluation_antisymmetric(pos: Position, mirror: Position)
    requires
        pos.status_of() == BoardStatus::Ongoing,
        mirror.status_of() == BoardStatus::Ongoing,
        crate::position::mover_of(mirror) == crate::position::mover_of(pos),
        tally_of(mirror, Color::White) == tally_of(pos, Color::Black),
        tally_of(mirror, Color::Black) == tally_of(pos, Color::White),
    ensures
        evaluation(mirror) == -evaluation(pos),
{
    lemma_swapped_sides_negate(
        crate::position::mover_of(pos),
        tally_of(pos, Color::White),
        tally_of(pos, Color::Black),
    );
}

/// Colour reflection with the move handed over: where the mirror has the
/// other side to move, its mover sees what the mover of the position sees, so
/// the two scores read for White are each other's negation.
pub proof fn lemma_evaluation_of_full_mirror(pos: Position, mirror: Position)
    requires
        pos.status_of() == BoardStatus::Ongoing,
        mirror.status_of() == BoardStatus::Ongoing,
        crate::position::mover_of(mirror) == other_side(crate::position::mover_of(pos)),
        tally_of(mirror, Color::White) == tally_of(pos, Color::Black),
        tally_of(mirror, Color::Black) == tally_of(pos, Color::White),
    ensures
        evaluation(mirror) == evaluation(pos),
        evaluation(mirror) * sign_of(crate::position::mover_of(mirror)) == -(evaluation(pos)
            * sign_of(crate::position::mover_of(pos))),
{
    lemma_mirror_keeps_mover_score(
        crate::position::mover_of(pos),
        tally_of(pos, Color::White),
        tally_of(pos, Color::Black),
    );
}

/// The score of a position for its mover is a score that a search may return.
pub proof fn lemma_evaluation_range(pos: Position)
    ensures
        MATED <= evaluation(pos) <= EVAL_LIMIT,
        pos.status_of() != BoardStatus::Checkmate ==> -EVAL_LIMIT <= evaluation(pos),
{
}

/// What a piece is worth.
pub fn get_score(piece: Piece) -> (value: ScoreTy)
    ensures
        value == worth(piece),
{
    match piece {
        Piece::Pawn => PAWN_WT,
        Piece::Knight => KNIGHT_WT,
        Piece::Bishop => BISHOP_WT,
        Piece::Rook => ROOK_WT,
        Piece::Queen => QUEEN_WT,
        Piece::King => KING_WT,
    }
}

fn count_piece(board: Position, piece: Piece, color: Color) -> (count: i32)
    ensures
        count == board.count(piece, color),
        0 <= count <= 64,
{
    let count: u32 = board.count_piece(piece, color);
    count as i32
}

fn material(board: Position, color: Color) -> (total: i32)
    ensures
        total == material_in(tally_of(board, color)),
        0 <= total <= 143040,
{
    let queen_s: i32 = 975 * count_piece(board, Piece::Queen, color);
    let rook_s: i32 = 500 * count_piece(board, Piece::Rook, color);
    let bishop_s: i32 = 335 * count_piece(board, Piece::Bishop, color);
    let knight_s: i32 = 325 * count_piece(board, Piece::Knight, color);
    let pawn_s: i32 = 100 * count_piece(board, Piece::Pawn, color);
    queen_s + rook_s + bishop_s + knight_s + pawn_s
}

/// Whether the side to move is down to endgame material.
pub fn is_endgame(board: Position) -> (low: bool)
    ensures
        low == endgame(board),
{
    material(board, board.side_to_move()) < ENDGAME_MAT
}

fn pairs(board: Position, color: Color) -> (total: i32)
    ensures
        total == pairs_in(tally_of(board, color)),
        -24 <= total <= 30,
{
    count_piece(board, Piece::Bishop, color) % 2 * BISHOP_PAIR + count_piece(
        board,
        Piece::Knight,
        color,
    ) % 2 * KNIGHT_PAIR + count_piece(board, Piece::Rook, color) % 2 * ROOK_PAIR
}

fn count_moves(board: Position) -> (count: i32)
    ensures
        count == capped(board.moves().len()),
        0 <= count <= 256,
{
    let moves = board.count_moves();
    if moves > MOVE_LIMIT {
        256
    } else {
        moves as i32
    }
}

fn mobility(board: Position, color: Color) -> (total: i32)
    ensures
        total == mobility_of(board, color),
        0 <= total <= 256,
{
    let count: i32 = if board.side_to_move() == color {
        count_moves(board)
    } else {
        match board.null_move() {
            Some(passed) => count_moves(passed),
            None => MOBILITY_UNKNOWN,
        }
    };
    count * MOBILITY_WT
}

/// Scores a position for the side to move.
pub fn evaluate(board: Position) -> (score: ScoreTy)
    ensures
        score == evaluation(board),
        score == static_score(board),
        MATED <= score <= EVAL_LIMIT,
        board.status_of() != BoardStatus::Checkmate ==> -EVAL_LIMIT <= score,
{
    match board.status() {
        BoardStatus::Ongoing => {
            let material_delta: i32 = material(board, Color::White) - material(board, Color::Black);
            let pairs_delta: i32 = pairs(board, Color::White) - pairs(board, Color::Black);
            let mobilty_delta: i32 = mobility(board, Color::White) - mobility(
                board,
                Color::Black,
            );
            let balance: i32 = material_delta + pairs_delta + mobilty_delta;
            let sign: ScoreTy = color_to_num(board.side_to_move());
            let seen: i32 = if sign == 1 {
                balance
            } else {
                -balance
            };
            if seen > 32000 {
                EVAL_LIMIT
            } else if seen < -32000 {
                -EVAL_LIMIT
            } else {
                seen as ScoreTy
            }
        },
        BoardStatus::Checkmate => MATED,
        BoardStatus::Stalemate => 0,
    }
}

} // verus!
