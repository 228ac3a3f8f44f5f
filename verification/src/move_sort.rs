//! Move ordering: captures first, the most valuable victim taken by the least
//! valuable attacker ahead, then killer moves, then the rest; ties keep the
//! order in which the moves came.

use crate::eval::{get_score, worth};
use crate::position::{ChessMove, Position};
use vstd::prelude::*;

verus! {

/// How many killer moves are kept for each ply.
pub const KILLER_MOVES: usize = 3;

/// The capture rank of every move that takes nothing: above that of any capture.
pub const QUIET_RANK: u32 = 2253001;

/// The killer number of a move that is no killer.
pub const NOT_A_KILLER: u32 = 4;

/// What the piece on `square` is worth; zero for an empty square.
pub open spec fn worth_on(pos: Position, square: u8) -> int {
    match pos.occupant(square) {
        Some(piece) => worth(piece),
        None => 0,
    }
}

/// Ranks a move by what it takes: a capture ranks lower (comes earlier) the
/// more its victim is worth, and among equal victims the less the capturing
/// piece is worth; a move onto an empty square ranks after every capture.
pub open spec fn capture_rank(pos: Position, m: ChessMove) -> int {
    match pos.occupant(m.dest) {
        Some(victim) => (1500 - worth(victim)) * 1501 + worth_on(pos, m.source),
        None => QUIET_RANK as int,
    }
}

/// The first killer slot that holds `m`, or 4 if none does.
pub open spec fn killer_number(killers: Seq<Option<ChessMove>>, m: ChessMove) -> int {
    if killers[0] == Some(m) {
        0
    } else if killers[1] == Some(m) {
        1
    } else if killers[2] == Some(m) {
        2
    } else {
        NOT_A_KILLER as int
    }
}

/// The full rank of a move: its capture rank first, its killer number second.
pub open spec fn move_rank(pos: Position, killers: Seq<Option<ChessMove>>, m: ChessMove) -> int {
    capture_rank(pos, m) * 8 + killer_number(killers, m)
}

/// Where a move of rank `r` goes into a sorted list: behind the last move
/// whose rank is not above `r`.
pub open spec fn insertion_point(
    sorted: Seq<ChessMove>,
    rank: spec_fn(ChessMove) -> int,
    r: int,
) -> int
    decreases sorted.len(),
{
    if sorted.len() == 0 {
        0
    } else if rank(sorted.last()) <= r {
        sorted.len() as int
    } else {
        insertion_point(sorted.drop_last(), rank, r)
    }
}

/// The moves in ascending rank, moves of equal rank in the order in which
/// they stood: each move in turn is inserted into the sorted list of those
/// before it.
pub open spec fn sorted_by(moves: Seq<ChessMove>, rank: spec_fn(ChessMove) -> int) -> Seq<
    ChessMove,
>
    decreases moves.len(),
{
    if moves.len() == 0 {
        Seq::<ChessMove>::empty()
    } else {
        let before = sorted_by(moves.drop_last(), rank);
        before.insert(insertion_point(before, rank, rank(moves.last())), moves.last())
    }
}

/// The order in which the search tries the moves of a node.
pub open spec fn ordered(pos: Position, killers: Seq<Option<ChessMove>>, moves: Seq<ChessMove>) -> Seq<
    ChessMove,
> {
    sorted_by(moves, |m: ChessMove| move_rank(pos, killers, m))
}

/// The order in which the quiescence search tries captures.
pub open spec fn ordered_qs(pos: Position, moves: Seq<ChessMove>) -> Seq<ChessMove> {
    sorted_by(moves, |m: ChessMove| capture_rank(pos, m))
}

/// What the full rank puts first: a capture before a quiet move; of two
/// captures the one with the more valuable victim, and with victims of equal
/// worth the one by the less valuable piece; and of two moves that rank alike
/// as captures the one with the lower killer number.
pub proof fn lemma_rank_order(pos: Position, killers: Seq<Option<ChessMove>>, a: ChessMove, b: ChessMove)
    ensures
        pos.occupant(a.dest) is Some && pos.occupant(b.dest) is None ==> move_rank(pos, killers, a)
            < move_rank(pos, killers, b),
        pos.occupant(a.dest) is Some && pos.occupant(b.dest) is Some && worth_on(pos, a.dest)
            > worth_on(pos, b.dest) ==> move_rank(pos, killers, a) < move_rank(pos, killers, b),
        pos.occupant(a.dest) is Some && pos.occupant(b.dest) is Some && worth_on(pos, a.dest)
            == worth_on(pos, b.dest) && worth_on(pos, a.source) < worth_on(pos, b.source)
            ==> move_rank(pos, killers, a) < move_rank(pos, killers, b),
        capture_rank(pos, a) == capture_rank(pos, b) && killer_number(killers, a) < killer_number(
            killers,
            b,
        ) ==> move_rank(pos, killers, a) < move_rank(pos, killers, b),
        capture_rank(pos, a) < capture_rank(pos, b) ==> move_rank(pos, killers, a) < move_rank(
            pos,
            killers,
            b,
        ),
{
}

/// The insertion point lies inside the list or at its end; everything from it
/// on ranks above `r`, and what stands just before it does not.
pub proof fn lemma_insertion_point(sorted: Seq<ChessMove>, rank: spec_fn(ChessMove) -> int, r: int)
    ensures
        0 <= insertion_point(sorted, rank, r) <= sorted.len(),
        forall|j: int|
            insertion_point(sorted, rank, r) <= j < sorted.len() ==> rank(#[trigger] sorted[j]) > r,
        insertion_point(sorted, rank, r) > 0 ==> rank(sorted[insertion_point(sorted, rank, r) - 1])
            <= r,
    decreases sorted.len(),
{
    if sorted.len() > 0 && rank(sorted.last()) > r {
        let shorter = sorted.drop_last();
        lemma_insertion_point(shorter, rank, r);
        assert forall|j: int| insertion_point(sorted, rank, r) <= j < sorted.len() implies rank(
            #[trigger] sorted[j],
        ) > r by {
            if j < shorter.len() {
                assert(sorted[j] == shorter[j]);
            }
        }
        if insertion_point(sorted, rank, r) > 0 {
            assert(sorted[insertion_point(sorted, rank, r) - 1] == shorter[insertion_point(
                shorter,
                rank,
                r,
            ) - 1]);
        }
    }
}

/// Sorting rearranges: the sorted list holds the same moves, each as often as
/// the list it was made from.
pub proof fn lemma_sorted_by_permutes(moves: Seq<ChessMove>, rank: spec_fn(ChessMove) -> int)
    ensures
        sorted_by(moves, rank).len() == moves.len(),
        sorted_by(moves, rank).to_multiset() == moves.to_multiset(),
        forall|i: int|
            0 <= i < moves.len() ==> moves.contains(#[trigger] sorted_by(moves, rank)[i]),
    decreases moves.len(),
{
    broadcast use vstd::seq_lib::group_to_multiset_ensures;

    let sorted = sorted_by(moves, rank);
    if moves.len() == 0 {
        assert(sorted.to_multiset() =~= moves.to_multiset());
    } else {
        let before = sorted_by(moves.drop_last(), rank);
        let at = insertion_point(before, rank, rank(moves.last()));
        lemma_sorted_by_permutes(moves.drop_last(), rank);
        lemma_insertion_point(before, rank, rank(moves.last()));
        assert(sorted.remove(at) =~= before);
        assert(sorted[at] == moves.last());
        assert(sorted.to_multiset() =~= before.to_multiset().insert(moves.last()));
        assert(moves =~= moves.drop_last().push(moves.last()));
        assert(moves.to_multiset() =~= moves.drop_last().to_multiset().insert(moves.last()));
    }
    assert forall|i: int| 0 <= i < moves.len() implies moves.contains(#[trigger] sorted[i]) by {
        assert(sorted.contains(sorted[i]));
        assert(sorted.to_multiset().count(sorted[i]) > 0);
    }
}

/// Sorting orders: ranks never fall along the sorted list.
pub proof fn lemma_sorted_by_ascends(moves: Seq<ChessMove>, rank: spec_fn(ChessMove) -> int)
    ensures
        forall|i: int, j: int|
            0 <= i <= j < sorted_by(moves, rank).len() ==> rank(
                #[trigger] sorted_by(moves, rank)[i],
            ) <= rank(#[trigger] sorted_by(moves, rank)[j]),
    decreases moves.len(),
{
    if moves.len() > 0 {
        let before = sorted_by(moves.drop_last(), rank);
        let r = rank(moves.last());
        let at = insertion_point(before, rank, r);
        let sorted = sorted_by(moves, rank);
        lemma_sorted_by_ascends(moves.drop_last(), rank);
        lemma_sorted_by_permutes(moves.drop_last(), rank);
        lemma_insertion_point(before, rank, r);
        assert forall|i: int, j: int| 0 <= i <= j < sorted.len() implies rank(#[trigger] sorted[i])
            <= rank(#[trigger] sorted[j]) by {
            let bi = if i < at { i } else { i - 1 };
            let bj = if j < at { j } else { j - 1 };
            if i != at {
                assert(sorted[i] == before[bi]);
            }
            if j != at {
                assert(sorted[j] == before[bj]);
            }
            if i < at && j == at {
                assert(rank(before[i]) <= rank(before[at - 1]));
            }
        }
    }
}

/// Those of the moves that have rank `r`, in the order in which they stand.
pub open spec fn of_rank(moves: Seq<ChessMove>, rank: spec_fn(ChessMove) -> int, r: int) -> Seq<
    ChessMove,
>
    decreases moves.len(),
{
    if moves.len() == 0 {
        Seq::<ChessMove>::empty()
    } else if rank(moves.last()) == r {
        of_rank(moves.drop_last(), rank, r).push(moves.last())
    } else {
        of_rank(moves.drop_last(), rank, r)
    }
}

proof fn lemma_of_rank_joined(
    front: Seq<ChessMove>,
    back: Seq<ChessMove>,
    rank: spec_fn(ChessMove) -> int,
    r: int,
)
    ensures
        of_rank(front + back, rank, r) == of_rank(front, rank, r) + of_rank(back, rank, r),
    decreases back.len(),
{
    if back.len() == 0 {
        assert(front + back =~= front);
        assert(of_rank(front, rank, r) + of_rank(back, rank, r) =~= of_rank(front, rank, r));
    } else {
        let whole = front + back;
        assert(whole.drop_last() =~= front + back.drop_last());
        assert(whole.last() == back.last());
        lemma_of_rank_joined(front, back.drop_last(), rank, r);
        if rank(back.last()) == r {
            assert(of_rank(whole, rank, r) =~= of_rank(front, rank, r) + of_rank(back, rank, r));
        }
    }
}

proof fn lemma_of_rank_absent(moves: Seq<ChessMove>, rank: spec_fn(ChessMove) -> int, r: int)
    requires
        forall|j: int| 0 <= j < moves.len() ==> rank(#[trigger] moves[j]) != r,
    ensures
        of_rank(moves, rank, r) == Seq::<ChessMove>::empty(),
    decreases moves.len(),
{
    if moves.len() > 0 {
        assert forall|j: int| 0 <= j < moves.drop_last().len() implies rank(
            #[trigger] moves.drop_last()[j],
        ) != r by {
            assert(moves.drop_last()[j] == moves[j]);
        }
        lemma_of_rank_absent(moves.drop_last(), rank, r);
        assert(rank(moves[moves.len() - 1]) != r);
    }
}

/// Sorting is stable: the moves of any one rank stand in the sorted list in
/// the order in which they stood before.
pub proof fn lemma_sorted_by_is_stable(moves: Seq<ChessMove>, rank: spec_fn(ChessMove) -> int, r: int)
    ensures
        of_rank(sorted_by(moves, rank), rank, r) == of_rank(moves, rank, r),
    decreases moves.len(),
{
    if moves.len() > 0 {
        let last = moves.last();
        let before = sorted_by(moves.drop_last(), rank);
        let at = insertion_point(before, rank, rank(last));
        let sorted = sorted_by(moves, rank);
        lemma_sorted_by_is_stable(moves.drop_last(), rank, r);
        lemma_insertion_point(before, rank, rank(last));
        let front = before.take(at);
        let back = before.skip(at);
        assert(before =~= front + back);
        assert(sorted =~= front.push(last) + back);
        lemma_of_rank_joined(front, back, rank, r);
        lemma_of_rank_joined(front.push(last), back, rank, r);
        assert(front.push(last).drop_last() =~= front);
        if rank(last) == r {
            assert forall|j: int| 0 <= j < back.len() implies rank(#[trigger] back[j]) != r by {
                assert(back[j] == before[at + j]);
            }
            lemma_of_rank_absent(back, rank, r);
            assert(of_rank(sorted, rank, r) =~= of_rank(before, rank, r).push(last));
        }
    }
}

fn killer_position(killer_moves: &[Option<ChessMove>; 3], m: &ChessMove) -> (number: u32)
    ensures
        number == killer_number(killer_moves@, *m),
        number <= 4,
{
    if killer_moves[0] == Some(*m) {
        0
    } else if killer_moves[1] == Some(*m) {
        1
    } else if killer_moves[2] == Some(*m) {
        2
    } else {
        NOT_A_KILLER
    }
}

fn mvv_lva(board: &Position, m: &ChessMove) -> (rank: u32)
    ensures
        rank == capture_rank(*board, *m),
        rank <= QUIET_RANK,
{
    match board.piece_on(m.dest) {
        Some(victim) => {
            let attacker: u32 = match board.piece_on(m.source) {
                Some(piece) => get_score(piece) as u32,
                None => 0,
            };
            ((1500 - get_score(victim)) as u32) * 1501 + attacker
        },
        None => QUIET_RANK,
    }
}

fn sort_by_rank(
    moves: &Vec<ChessMove>,
    ranks: &Vec<u32>,
    Ghost(rank): Ghost<spec_fn(ChessMove) -> int>,
) -> (sorted: Vec<ChessMove>)
    requires
        ranks@.len() == moves@.len(),
        forall|i: int| 0 <= i < moves@.len() ==> ranks@[i] == rank(#[trigger] moves@[i]),
    ensures
        sorted@ == sorted_by(moves@, rank),
{
    let mut sorted: Vec<ChessMove> = Vec::new();
    let mut sorted_ranks: Vec<u32> = Vec::new();
    let mut i: usize = 0;
    while i < moves.len()
        invariant
            i <= moves@.len(),
            ranks@.len() == moves@.len(),
            forall|k: int| 0 <= k < moves@.len() ==> ranks@[k] == rank(#[trigger] moves@[k]),
            sorted@ == sorted_by(moves@.take(i as int), rank),
            sorted_ranks@.len() == sorted@.len(),
            forall|k: int| 0 <= k < sorted@.len() ==> sorted_ranks@[k] == rank(#[trigger] sorted@[k]),
        decreases moves@.len() - i,
    {
        let m = moves[i];
        let r = ranks[i];
        let mut at: usize = sorted.len();
        proof {
            assert(sorted@.take(at as int) =~= sorted@);
        }
        while at > 0 && sorted_ranks[at - 1] > r
            invariant
                at <= sorted@.len(),
                sorted_ranks@.len() == sorted@.len(),
                forall|k: int|
                    0 <= k < sorted@.len() ==> sorted_ranks@[k] == rank(#[trigger] sorted@[k]),
                insertion_point(sorted@.take(at as int), rank, r as int) == insertion_point(
                    sorted@,
                    rank,
                    r as int,
                ),
            decreases at,
        {
            proof {
                let shorter = sorted@.take(at as int);
                assert(shorter.last() == sorted@[at - 1]);
                assert(shorter.drop_last() =~= sorted@.take(at - 1));
            }
            at = at - 1;
        }
        proof {
            let shorter = sorted@.take(at as int);
            if at > 0 {
                assert(shorter.last() == sorted@[at - 1]);
            }
            assert(insertion_point(shorter, rank, r as int) == at);
            let upto = moves@.take(i + 1);
            assert(upto.drop_last() =~= moves@.take(i as int));
            assert(upto.last() == m);
            assert(sorted@.take(sorted@.len() as int) =~= sorted@);
        }
        sorted.insert(at, m);
        sorted_ranks.insert(at, r);
        i = i + 1;
    }
    proof {
        assert(moves@.take(moves@.len() as int) =~= moves@);
    }
    sorted
}

/// Orders the moves of a node for the main search.
pub fn sort_moves(
    board: &Position,
    moves: &mut Vec<ChessMove>,
    killer_moves: &[Option<ChessMove>; 3],
)
    ensures
        final(moves)@ == ordered(*board, killer_moves@, old(moves)@),
{
    let ghost rank = |m: ChessMove| move_rank(*board, killer_moves@, m);
    let mut ranks: Vec<u32> = Vec::new();
    let mut i: usize = 0;
    while i < moves.len()
        invariant
            i <= moves@.len(),
            ranks@.len() == i,
            forall|k: int| 0 <= k < i ==> ranks@[k] == move_rank(*board, killer_moves@, moves@[k]),
        decreases moves@.len() - i,
    {
        let m = moves[i];
        ranks.push(mvv_lva(board, &m) * 8 + killer_position(killer_moves, &m));
        i = i + 1;
    }
    let sorted = sort_by_rank(moves, &ranks, Ghost(rank));
    *moves = sorted;
}

/// Orders captures for the quiescence search: by what they take alone.
pub fn sort_qs(board: &Position, moves: &mut Vec<ChessMove>)
    ensures
        final(moves)@ == ordered_qs(*board, old(moves)@),
{
    let ghost rank = |m: ChessMove| capture_rank(*board, m);
    let mut ranks: Vec<u32> = Vec::new();
    let mut i: usize = 0;
    while i < moves.len()
        invariant
            i <= moves@.len(),
            ranks@.len() == i,
            forall|k: int| 0 <= k < i ==> ranks@[k] == capture_rank(*board, moves@[k]),
        decreases moves@.len() - i,
    {
        let m = moves[i];
        ranks.push(mvv_lva(board, &m));
        i = i + 1;
    }
    let sorted = sort_by_rank(moves, &ranks, Ghost(rank));
    *moves = sorted;
}

} // verus!
