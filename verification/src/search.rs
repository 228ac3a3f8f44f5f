//! The search: quiescence, principal-variation search with null-move and
//! reverse-futility pruning, the root search and iterative deepening.

use crate::eval::{endgame, evaluate, is_endgame, static_score};
use crate::helpers::game_over;
use crate::move_sort::{lemma_sorted_by_permutes, ordered, ordered_qs, sort_moves, sort_qs};
use crate::position::{
    position_after, position_hash, position_passed, BoardStatus, ChessMove, Position,
};
use crate::score::{
    is_value, is_window, max_score, min_score, ScoreTy, EVAL_LIMIT, MATED, N_INF, P_INF,
};
use crate::transposition::{empty_table, lookup, store, CacheItem, Flag, TTable};
use smallvec::SmallVec;
use std::sync::atomic::AtomicBool;
use std::sync::atomic::Ordering;
use vstd::prelude::*;

verus! {

/// The depth by which a null-move search is reduced.
pub const R: u8 = 2;

/// The number of plies for which killer moves are kept from the start.
pub const DEPTH: usize = 12;

/// The stop signal is read when the node count has these bits clear.
pub const POLL_MASK: usize = 4095;

/// The futility margin for each ply of remaining depth.
pub const FUTILITY_MARGIN: ScoreTy = 120;

/// How far a window's upper end must stay from the limits of the score range
/// for pruning to be tried.
pub const MATE_MARGIN: ScoreTy = 100;

/// The killer moves of one worker, a row of three for each ply, kept in a
/// `smallvec::SmallVec` that holds its first twelve rows in place.
#[verifier::external_body]
pub struct Killers {
    rows: SmallVec<[[Option<ChessMove>; 3]; 12]>,
}

/// The killer rows that the collection holds, one for each ply, each row as
/// its three slots.
pub uninterp spec fn killer_rows(killers: Killers) -> Seq<Seq<Option<ChessMove>>>;

/// `SmallVec::from_elem`: a collection of `n` copies of `row`.
#[verifier::external_body]
fn killers_from_elem(row: [Option<ChessMove>; 3], n: usize) -> (killers: Killers)
    ensures
        killer_rows(killers) == Seq::new(n as nat, |i: int| row@),
{
    Killers { rows: SmallVec::from_elem(row, n) }
}

/// `SmallVec::len`.
#[verifier::external_body]
fn killers_len(killers: &Killers) -> (len: usize)
    ensures
        len == killer_rows(*killers).len(),
{
    killers.rows.len()
}

/// The row at `ply`, read through `SmallVec`'s `Deref` to a slice.
#[verifier::external_body]
fn killers_get(killers: &Killers, ply: usize) -> (row: Option<[Option<ChessMove>; 3]>)
    ensures
        ply < killer_rows(*killers).len() ==> row is Some && row.unwrap()@ == killer_rows(
            *killers,
        )[ply as int],
        ply >= killer_rows(*killers).len() ==> row is None,
{
    killers.rows.get(ply).copied()
}

/// `SmallVec::push`: the row is appended.
#[verifier::external_body]
fn killers_push(killers: &mut Killers, row: [Option<ChessMove>; 3])
    ensures
        killer_rows(*final(killers)) == killer_rows(*old(killers)).push(row@),
{
    killers.rows.push(row)
}

/// Assignment through `SmallVec`'s `IndexMut`: the row at `ply` is replaced.
#[verifier::external_body]
fn killers_set(killers: &mut Killers, ply: usize, row: [Option<ChessMove>; 3])
    requires
        ply < killer_rows(*old(killers)).len(),
    ensures
        killer_rows(*final(killers)) == killer_rows(*old(killers)).update(ply as int, row@),
{
    killers.rows[ply] = row;
}

/// What a search reads and leaves behind: the transposition table, the killer
/// rows and the node count.
pub struct SearchState {
    pub table: Seq<CacheItem>,
    pub killers: Seq<Seq<Option<ChessMove>>>,
    pub nodes: usize,
}

/// The node count after one more node; it starts again at zero when it is full.
pub open spec fn bump(nodes: usize) -> usize {
    if nodes == usize::MAX {
        0
    } else {
        (nodes + 1) as usize
    }
}

/// A score seen from the other side.
pub open spec fn negated(score: ScoreTy) -> ScoreTy {
    (-(score as int)) as ScoreTy
}

/// The larger of two scores.
pub open spec fn higher(a: ScoreTy, b: ScoreTy) -> ScoreTy {
    if a >= b {
        a
    } else {
        b
    }
}

/// The smaller of two scores.
pub open spec fn lower(a: ScoreTy, b: ScoreTy) -> ScoreTy {
    if a <= b {
        a
    } else {
        b
    }
}

/// The quiescence search of `pos` in the window from `alpha` to `beta`, as the
/// node count it leaves and the score it finds. The position's static score
/// stands if it reaches `beta`; else the captures are tried in their order.
pub open spec fn quiesce_spec(nodes: usize, pos: Position, alpha: ScoreTy, beta: ScoreTy) -> (
    usize,
    ScoreTy,
)
    decreases pos.men(), 1nat, 0nat,
{
    let standing_pat = static_score(pos);
    if standing_pat >= beta {
        (bump(nodes), beta)
    } else {
        quiesce_moves_spec(
            bump(nodes),
            pos,
            ordered_qs(pos, pos.captures()),
            0,
            higher(alpha, standing_pat),
            beta,
        )
    }
}

/// The quiescence search over the captures from index `from` on. A capture is
/// followed if it leaves fewer men on the board; its score, negated, ends the
/// search at `beta` if it reaches `beta`, and else may raise `alpha`.
pub open spec fn quiesce_moves_spec(
    nodes: usize,
    pos: Position,
    moves: Seq<ChessMove>,
    from: int,
    alpha: ScoreTy,
    beta: ScoreTy,
) -> (usize, ScoreTy)
    decreases pos.men(), 0nat, moves.len() - from,
{
    if from < 0 || from >= moves.len() {
        (nodes, alpha)
    } else {
        let next = position_after(pos, moves[from]);
        if next.men() < pos.men() {
            let (counted, found) = quiesce_spec(nodes, next, negated(beta), negated(alpha));
            let score = negated(found);
            if score >= beta {
                (counted, beta)
            } else {
                quiesce_moves_spec(counted, pos, moves, from + 1, higher(alpha, score), beta)
            }
        } else {
            quiesce_moves_spec(nodes, pos, moves, from + 1, alpha, beta)
        }
    }
}

/// What a look into the table means for a search.
#[derive(Clone, Copy, Debug, PartialEq, Eq)]
pub enum Probe {
    /// The table settles the node: this is its score.
    Cut(ScoreTy),
    /// The node is searched, in this window.
    Search(ScoreTy, ScoreTy),
}

/// An entry counts for a search of `depth` if it was searched at least as
/// deep and holds a score that a search can have produced.
pub open spec fn usable(entry: CacheItem, depth: u8) -> bool {
    entry.depth >= depth && is_value(entry.value as int)
}

/// What the table's answer means: an exact score settles the node; a lower
/// bound raises `alpha`, an upper bound lowers `beta`, and the node is settled
/// by the stored score if the window closes.
pub open spec fn probe_spec(found: Option<CacheItem>, depth: u8, alpha: ScoreTy, beta: ScoreTy) -> Probe {
    if found is Some && usable(found.unwrap(), depth) {
        let entry = found.unwrap();
        match entry.flag {
            Flag::Exact => Probe::Cut(entry.value),
            Flag::LowerBound => if higher(alpha, entry.value) >= beta {
                Probe::Cut(entry.value)
            } else {
                Probe::Search(higher(alpha, entry.value), beta)
            },
            Flag::UpperBound => if alpha >= lower(beta, entry.value) {
                Probe::Cut(entry.value)
            } else {
                Probe::Search(alpha, lower(beta, entry.value))
            },
        }
    } else {
        Probe::Search(alpha, beta)
    }
}

/// `beta` lies more than the mate margin inside both ends of the score range.
pub open spec fn far_from_mate(beta: ScoreTy) -> bool {
    -(P_INF - MATE_MARGIN) < beta - 1 < P_INF - MATE_MARGIN
}

/// Whether a node tries the null move: not in check, allowed here, deep
/// enough, `beta` far from mate, and not an endgame.
pub open spec fn null_move_tried(pos: Position, depth: u8, beta: ScoreTy, can_null: bool) -> bool {
    !pos.checked() && can_null && depth > R && far_from_mate(beta) && !endgame(pos)
}

/// The depth of the null-move search: reduced by two plies, by three above
/// depth six, and by the ply that the pass itself takes.
pub open spec fn null_depth(depth: u8) -> u8 {
    if depth > 6 {
        (depth - 4) as u8
    } else {
        (depth - 3) as u8
    }
}

/// Whether a node tries reverse futility pruning: shallow, not in check, and
/// `beta` far from mate.
pub open spec fn futility_tried(pos: Position, depth: u8, beta: ScoreTy) -> bool {
    depth < 3 && !pos.checked() && far_from_mate(beta)
}

/// The static score less the margin for the remaining depth.
pub open spec fn futility_score(pos: Position, depth: u8) -> ScoreTy {
    (static_score(pos) - FUTILITY_MARGIN * depth) as ScoreTy
}

/// The empty killer row.
pub open spec fn no_killers() -> Seq<Option<ChessMove>> {
    seq![None, None, None]
}

/// The killer rows of a new worker: twelve empty rows.
pub open spec fn fresh_killers() -> Seq<Seq<Option<ChessMove>>> {
    Seq::new(DEPTH as nat, |i: int| no_killers())
}

/// The killer row for `ply`; empty beyond the rows kept.
pub open spec fn killers_at(killers: Seq<Seq<Option<ChessMove>>>, ply: int) -> Seq<Option<ChessMove>> {
    if 0 <= ply < killers.len() {
        killers[ply]
    } else {
        no_killers()
    }
}

/// The rows, with empty rows added until there is one for `ply`.
pub open spec fn rows_upto(killers: Seq<Seq<Option<ChessMove>>>, ply: int) -> Seq<
    Seq<Option<ChessMove>>,
> {
    if killers.len() <= ply {
        killers + Seq::new((ply + 1 - killers.len()) as nat, |i: int| no_killers())
    } else {
        killers
    }
}

/// The rows after `m` has become the newest killer of `ply`: it takes the
/// first slot, the two newest before it move on, the oldest leaves.
pub open spec fn with_killer(killers: Seq<Seq<Option<ChessMove>>>, ply: int, m: ChessMove) -> Seq<
    Seq<Option<ChessMove>>,
> {
    let rows = rows_upto(killers, ply);
    rows.update(ply, seq![Some(m), rows[ply][0], rows[ply][1]])
}

/// A move that takes nothing: its square of arrival is empty.
pub open spec fn is_quiet(pos: Position, m: ChessMove) -> bool {
    pos.occupant(m.dest) is None
}

/// How a node's score bounds its value: an upper bound if it did not rise
/// above the `alpha` the node was entered with, a lower bound if it reached
/// `beta`, else exact.
pub open spec fn bound_flag(best: ScoreTy, alpha: ScoreTy, beta: ScoreTy) -> Flag {
    if best <= alpha {
        Flag::UpperBound
    } else if best >= beta {
        Flag::LowerBound
    } else {
        Flag::Exact
    }
}

/// Whether the move at index `from` is searched with the full window: the
/// hinted move, the first time it is met, or without a hint the first move.
pub open spec fn is_principal(pv: Option<ChessMove>, fresh: bool, from: int, m: ChessMove) -> bool {
    match pv {
        Some(hint) => hint == m && fresh,
        None => from == 0,
    }
}

impl SearchState {
    pub open spec fn with_nodes(self, nodes: usize) -> SearchState {
        SearchState { table: self.table, killers: self.killers, nodes }
    }

    pub open spec fn with_table(self, table: Seq<CacheItem>) -> SearchState {
        SearchState { table, killers: self.killers, nodes: self.nodes }
    }

    pub open spec fn with_killers(self, killers: Seq<Seq<Option<ChessMove>>>) -> SearchState {
        SearchState { table: self.table, killers, nodes: self.nodes }
    }
}

/// The principal-variation search, node by node: the table may settle the
/// node or narrow its window; else the node is counted and searched.
pub open spec fn pvs_rec(
    st: SearchState,
    start_depth: u8,
    depth: u8,
    pos: Position,
    alpha: ScoreTy,
    beta: ScoreTy,
    pv: Option<ChessMove>,
    can_null: bool,
) -> (SearchState, ScoreTy)
    decreases depth, 4nat, 0nat,
{
    match probe_spec(lookup(st.table, position_hash(pos)), depth, alpha, beta) {
        Probe::Cut(value) => (st, value),
        Probe::Search(lo, hi) => node_spec(
            st.with_nodes(bump(st.nodes)),
            start_depth,
            depth,
            pos,
            alpha,
            lo,
            hi,
            pv,
            can_null,
        ),
    }
}

/// The search of a node that the table did not settle, in the window from
/// `lo` to `hi`: quiescence at depth zero or where the game is over; else the
/// null move, reverse futility pruning, and the moves.
pub open spec fn node_spec(
    st: SearchState,
    start_depth: u8,
    depth: u8,
    pos: Position,
    alpha: ScoreTy,
    lo: ScoreTy,
    hi: ScoreTy,
    pv: Option<ChessMove>,
    can_null: bool,
) -> (SearchState, ScoreTy)
    decreases depth, 3nat, 0nat,
{
    if depth == 0 || pos.moves().len() == 0 {
        let (nodes, score) = quiesce_spec(st.nodes, pos, lo, hi);
        (st.with_nodes(nodes), score)
    } else {
        let (passed, pruned) = null_move_spec(st, start_depth, depth, pos, hi, can_null);
        if pruned is Some {
            (passed, pruned.unwrap())
        } else if futility_tried(pos, depth, hi) && futility_score(pos, depth) >= hi {
            (passed, futility_score(pos, depth))
        } else {
            full_search_spec(passed, start_depth, depth, pos, alpha, lo, hi, pv)
        }
    }
}

/// The search of a node's moves and what it leaves in the table: the moves
/// are ordered with the killers of the node's ply and searched; the score is
/// stored for the position with the bound it gives against the `alpha` the
/// node was entered with and the upper end of its window.
pub open spec fn full_search_spec(
    st: SearchState,
    start_depth: u8,
    depth: u8,
    pos: Position,
    alpha: ScoreTy,
    lo: ScoreTy,
    hi: ScoreTy,
    pv: Option<ChessMove>,
) -> (SearchState, ScoreTy)
    decreases depth, 2nat, 0nat,
{
    let moves = ordered(pos, killers_at(st.killers, start_depth - depth), pos.moves());
    let (searched, best) = pvs_moves_spec(st, start_depth, depth, pos, moves, 0, lo, hi, pv, true);
    let item = CacheItem::entry(depth, bound_flag(best, alpha, hi), best, position_hash(pos));
    (searched.with_table(store(searched.table, item)), best)
}

/// The null-move step of a node: where it is tried and the side to move can
/// pass, the passed position is searched to reduced depth in the window just
/// below `beta`; a score that still reaches `beta` settles the node.
pub open spec fn null_move_spec(
    st: SearchState,
    start_depth: u8,
    depth: u8,
    pos: Position,
    beta: ScoreTy,
    can_null: bool,
) -> (SearchState, Option<ScoreTy>)
    decreases depth, 2nat, 0nat,
{
    if null_move_tried(pos, depth, beta, can_null) && position_passed(pos) is Some {
        let (after, found) = pvs_rec(
            st,
            start_depth,
            null_depth(depth),
            position_passed(pos).unwrap(),
            negated(beta),
            (negated(beta) + 1) as ScoreTy,
            None,
            false,
        );
        if negated(found) >= beta {
            (after, Some(negated(found)))
        } else {
            (after, None)
        }
    } else {
        (st, None)
    }
}

/// The search of a node's moves from index `from` on, with `alpha` as raised
/// so far. A move whose score reaches `beta` ends the search, and becomes a
/// killer of the node's ply if it is quiet.
pub open spec fn pvs_moves_spec(
    st: SearchState,
    start_depth: u8,
    depth: u8,
    pos: Position,
    moves: Seq<ChessMove>,
    from: int,
    alpha: ScoreTy,
    beta: ScoreTy,
    pv: Option<ChessMove>,
    fresh: bool,
) -> (SearchState, ScoreTy)
    decreases depth, 1nat, moves.len() - from,
{
    if depth == 0 || from < 0 || from >= moves.len() {
        (st, alpha)
    } else {
        let m = moves[from];
        let (after, score) = move_score_spec(
            st,
            start_depth,
            depth,
            position_after(pos, m),
            alpha,
            beta,
            is_principal(pv, fresh, from, m),
        );
        let raised = higher(alpha, score);
        if raised >= beta {
            if is_quiet(pos, m) {
                (after.with_killers(with_killer(after.killers, start_depth - depth, m)), raised)
            } else {
                (after, raised)
            }
        } else {
            pvs_moves_spec(
                after,
                start_depth,
                depth,
                pos,
                moves,
                from + 1,
                raised,
                beta,
                pv,
                fresh && pv != Some(m),
            )
        }
    }
}

/// The score of one move, from the position `next` it leads to: the principal
/// move is searched in the full window; any other first in the window just
/// above `alpha`, and again up to `beta` if its score falls strictly between.
pub open spec fn move_score_spec(
    st: SearchState,
    start_depth: u8,
    depth: u8,
    next: Position,
    alpha: ScoreTy,
    beta: ScoreTy,
    principal: bool,
) -> (SearchState, ScoreTy)
    decreases depth, 0nat, 0nat,
{
    if depth == 0 {
        (st, alpha)
    } else if principal {
        let (after, found) = pvs_rec(
            st,
            start_depth,
            (depth - 1) as u8,
            next,
            negated(beta),
            negated(alpha),
            None,
            true,
        );
        (after, negated(found))
    } else {
        let (after, found) = pvs_rec(
            st,
            start_depth,
            (depth - 1) as u8,
            next,
            (negated(alpha) - 1) as ScoreTy,
            negated(alpha),
            None,
            true,
        );
        let score = negated(found);
        if alpha < score && score < beta {
            let (again, refound) = pvs_rec(
                after,
                start_depth,
                (depth - 1) as u8,
                next,
                negated(beta),
                negated(score),
                None,
                true,
            );
            (again, negated(refound))
        } else {
            (after, score)
        }
    }
}

/// The principal-variation search of `pos` to `depth` in the window from
/// `alpha` to `beta`, when no stop signal arrives: the state it leaves and the
/// score it finds. This is [`pvs_rec`], kept folded for those who only pass
/// its result on.
#[verifier::opaque]
pub open spec fn pvs_spec(
    st: SearchState,
    start_depth: u8,
    depth: u8,
    pos: Position,
    alpha: ScoreTy,
    beta: ScoreTy,
    pv: Option<ChessMove>,
    can_null: bool,
) -> (SearchState, ScoreTy) {
    pvs_rec(st, start_depth, depth, pos, alpha, beta, pv, can_null)
}

/// The root search over the moves from index `from` on: each move is searched
/// in the window from the lowest score to the best found so far, negated; a
/// move that beats the best becomes the best.
pub open spec fn root_moves_spec(
    st: SearchState,
    depth: u8,
    pos: Position,
    moves: Seq<ChessMove>,
    from: int,
    alpha: ScoreTy,
    best: Option<(ChessMove, ScoreTy)>,
    pv: Option<ChessMove>,
) -> (SearchState, Option<(ChessMove, ScoreTy)>)
    decreases moves.len() - from,
{
    if depth == 0 || from < 0 || from >= moves.len() {
        (st, best)
    } else {
        let m = moves[from];
        let (after, found) = pvs_spec(
            st,
            depth,
            (depth - 1) as u8,
            position_after(pos, m),
            negated(P_INF),
            negated(alpha),
            pv,
            true,
        );
        let score = negated(found);
        if score > alpha {
            root_moves_spec(after, depth, pos, moves, from + 1, score, Some((m, score)), pv)
        } else {
            root_moves_spec(after, depth, pos, moves, from + 1, alpha, best, pv)
        }
    }
}

/// The root search of `pos` to `depth`, when no stop signal arrives: the state
/// it leaves, and the best move with its score. There is none at depth zero
/// and none where the game is over.
#[verifier::opaque]
pub open spec fn pvs_root_spec(st: SearchState, depth: u8, pos: Position, pv: Option<ChessMove>) -> (
    SearchState,
    Option<(ChessMove, ScoreTy)>,
) {
    if depth == 0 || pos.moves().len() == 0 {
        (st, None)
    } else {
        root_moves_spec(st, depth, pos, pos.moves(), 0, N_INF, None, pv)
    }
}

/// The move of a result, as the hint for the next search.
pub open spec fn hint_of(best: Option<(ChessMove, ScoreTy)>) -> Option<ChessMove> {
    match best {
        Some((m, _)) => Some(m),
        None => None,
    }
}

/// Iterative deepening to `max_depth`, when no stop signal arrives: the root
/// search at each depth from one up, hinted with the best move so far; a depth
/// that finds a move replaces the best, and the node count starts again.
pub open spec fn best_move_spec(st: SearchState, max_depth: u8, pos: Position) -> (
    SearchState,
    Option<(ChessMove, ScoreTy)>,
)
    decreases max_depth,
{
    if max_depth == 0 {
        (st, None)
    } else {
        let (before, best) = best_move_spec(st, (max_depth - 1) as u8, pos);
        let (after, found) = pvs_root_spec(before, max_depth, pos, hint_of(best));
        (
            after.with_nodes(0),
            if found is Some {
                found
            } else {
                best
            },
        )
    }
}

/// What one depth of iterative deepening found.
#[derive(Clone, Copy, Debug, PartialEq, Eq)]
pub struct DepthInfo {
    /// The depth searched.
    pub depth: u8,
    /// The nodes counted at that depth.
    pub nodes: usize,
    /// The score of the best move.
    pub score: ScoreTy,
}

/// The reports of iterative deepening to `max_depth`, when no stop signal
/// arrives: one for each depth that found a move, with the nodes that the
/// depth counted.
pub open spec fn reports_spec(st: SearchState, max_depth: u8, pos: Position) -> Seq<DepthInfo>
    decreases max_depth,
{
    if max_depth == 0 {
        Seq::<DepthInfo>::empty()
    } else {
        let (before, best) = best_move_spec(st, (max_depth - 1) as u8, pos);
        let (after, found) = pvs_root_spec(before, max_depth, pos, hint_of(best));
        let earlier = reports_spec(st, (max_depth - 1) as u8, pos);
        if found is Some {
            earlier.push(DepthInfo { depth: max_depth, nodes: after.nodes, score: found.unwrap().1 })
        } else {
            earlier
        }
    }
}

/// One more depth of iterative deepening, when no stop signal arrives: the
/// root search at `depth`, hinted with the best move so far. The state it
/// leaves, with the node count started again; the best move, which is the one
/// found if one was found; and the report of the depth, if it found a move.
pub open spec fn deepen_spec(
    st: SearchState,
    depth: u8,
    pos: Position,
    best: Option<(ChessMove, ScoreTy)>,
) -> (SearchState, Option<(ChessMove, ScoreTy)>, Seq<DepthInfo>) {
    let (after, found) = pvs_root_spec(st, depth, pos, hint_of(best));
    if found is Some {
        (
            after.with_nodes(0),
            found,
            seq![DepthInfo { depth, nodes: after.nodes, score: found.unwrap().1 }],
        )
    } else {
        (after.with_nodes(0), best, Seq::<DepthInfo>::empty())
    }
}

/// `found` and `reports` are what iterative deepening gives at some depth up
/// to `max_depth`.
pub open spec fn found_by_depth(
    st: SearchState,
    max_depth: u8,
    pos: Position,
    found: Option<(ChessMove, ScoreTy)>,
    reports: Seq<DepthInfo>,
) -> bool {
    exists|reached: u8|
        reached <= max_depth && found == (#[trigger] best_move_spec(st, reached, pos)).1 && reports
            == reports_spec(st, reached, pos)
}

/// The search leaves the table as long as it was: it stores into slots and
/// adds none.
pub proof fn lemma_pvs_keeps_table_len(
    st: SearchState,
    start_depth: u8,
    depth: u8,
    pos: Position,
    alpha: ScoreTy,
    beta: ScoreTy,
    pv: Option<ChessMove>,
    can_null: bool,
)
    requires
        0 < st.table.len() <= usize::MAX,
    ensures
        pvs_rec(st, start_depth, depth, pos, alpha, beta, pv, can_null).0.table.len()
            == st.table.len(),
        pvs_spec(st, start_depth, depth, pos, alpha, beta, pv, can_null).0.table.len()
            == st.table.len(),
    decreases depth, 4nat, 0nat,
{
    reveal(pvs_spec);
    match probe_spec(lookup(st.table, position_hash(pos)), depth, alpha, beta) {
        Probe::Cut(value) => {},
        Probe::Search(lo, hi) => {
            lemma_node_keeps_table_len(
                st.with_nodes(bump(st.nodes)),
                start_depth,
                depth,
                pos,
                alpha,
                lo,
                hi,
                pv,
                can_null,
            );
        },
    }
}

/// A node that the table did not settle leaves the table as long as it was.
pub proof fn lemma_node_keeps_table_len(
    st: SearchState,
    start_depth: u8,
    depth: u8,
    pos: Position,
    alpha: ScoreTy,
    lo: ScoreTy,
    hi: ScoreTy,
    pv: Option<ChessMove>,
    can_null: bool,
)
    requires
        0 < st.table.len() <= usize::MAX,
    ensures
        node_spec(st, start_depth, depth, pos, alpha, lo, hi, pv, can_null).0.table.len()
            == st.table.len(),
    decreases depth, 3nat, 0nat,
{
    if !(depth == 0 || pos.moves().len() == 0) {
        lemma_null_move_keeps_table_len(st, start_depth, depth, pos, hi, can_null);
        let (passed, pruned) = null_move_spec(st, start_depth, depth, pos, hi, can_null);
        if !(pruned is Some) && !(futility_tried(pos, depth, hi) && futility_score(pos, depth) >= hi) {
            lemma_full_search_keeps_table_len(passed, start_depth, depth, pos, alpha, lo, hi, pv);
        }
    }
}

/// The null-move step leaves the table as long as it was.
pub proof fn lemma_null_move_keeps_table_len(
    st: SearchState,
    start_depth: u8,
    depth: u8,
    pos: Position,
    beta: ScoreTy,
    can_null: bool,
)
    requires
        0 < st.table.len() <= usize::MAX,
    ensures
        null_move_spec(st, start_depth, depth, pos, beta, can_null).0.table.len() == st.table.len(),
    decreases depth, 2nat, 0nat,
{
    if null_move_tried(pos, depth, beta, can_null) && position_passed(pos) is Some {
        lemma_pvs_keeps_table_len(
            st,
            start_depth,
            null_depth(depth),
            position_passed(pos).unwrap(),
            negated(beta),
            (negated(beta) + 1) as ScoreTy,
            None,
            false,
        );
    }
}

/// The search of a node's moves, with the entry it stores, leaves the table
/// as long as it was.
pub proof fn lemma_full_search_keeps_table_len(
    st: SearchState,
    start_depth: u8,
    depth: u8,
    pos: Position,
    alpha: ScoreTy,
    lo: ScoreTy,
    hi: ScoreTy,
    pv: Option<ChessMove>,
)
    requires
        0 < st.table.len() <= usize::MAX,
    ensures
        full_search_spec(st, start_depth, depth, pos, alpha, lo, hi, pv).0.table.len()
            == st.table.len(),
    decreases depth, 2nat, 0nat,
{
    let moves = ordered(pos, killers_at(st.killers, start_depth - depth), pos.moves());
    lemma_moves_keep_table_len(st, start_depth, depth, pos, moves, 0, lo, hi, pv, true);
    let searched = pvs_moves_spec(st, start_depth, depth, pos, moves, 0, lo, hi, pv, true).0;
    crate::transposition::lemma_slot_in_table(searched.table.len() as usize, position_hash(pos));
}

/// The search of a node's moves leaves the table as long as it was.
pub proof fn lemma_moves_keep_table_len(
    st: SearchState,
    start_depth: u8,
    depth: u8,
    pos: Position,
    moves: Seq<ChessMove>,
    from: int,
    alpha: ScoreTy,
    beta: ScoreTy,
    pv: Option<ChessMove>,
    fresh: bool,
)
    requires
        0 < st.table.len() <= usize::MAX,
    ensures
        pvs_moves_spec(st, start_depth, depth, pos, moves, from, alpha, beta, pv, fresh).0.table.len()
            == st.table.len(),
    decreases depth, 1nat, moves.len() - from,
{
    if !(depth == 0 || from < 0 || from >= moves.len()) {
        let m = moves[from];
        let principal = is_principal(pv, fresh, from, m);
        lemma_move_score_keeps_table_len(
            st,
            start_depth,
            depth,
            position_after(pos, m),
            alpha,
            beta,
            principal,
        );
        let (after, score) = move_score_spec(
            st,
            start_depth,
            depth,
            position_after(pos, m),
            alpha,
            beta,
            principal,
        );
        let raised = higher(alpha, score);
        if raised < beta {
            lemma_moves_keep_table_len(
                after,
                start_depth,
                depth,
                pos,
                moves,
                from + 1,
                raised,
                beta,
                pv,
                fresh && pv != Some(m),
            );
        }
    }
}

/// The search of one move leaves the table as long as it was.
pub proof fn lemma_move_score_keeps_table_len(
    st: SearchState,
    start_depth: u8,
    depth: u8,
    next: Position,
    alpha: ScoreTy,
    beta: ScoreTy,
    principal: bool,
)
    requires
        0 < st.table.len() <= usize::MAX,
    ensures
        move_score_spec(st, start_depth, depth, next, alpha, beta, principal).0.table.len()
            == st.table.len(),
    decreases depth, 0nat, 0nat,
{
    if depth > 0 {
        if principal {
            lemma_pvs_keeps_table_len(
                st,
                start_depth,
                (depth - 1) as u8,
                next,
                negated(beta),
                negated(alpha),
                None,
                true,
            );
        } else {
            lemma_pvs_keeps_table_len(
                st,
                start_depth,
                (depth - 1) as u8,
                next,
                (negated(alpha) - 1) as ScoreTy,
                negated(alpha),
                None,
                true,
            );
            let (after, found) = pvs_rec(
                st,
                start_depth,
                (depth - 1) as u8,
                next,
                (negated(alpha) - 1) as ScoreTy,
                negated(alpha),
                None,
                true,
            );
            let score = negated(found);
            if alpha < score && score < beta {
                lemma_pvs_keeps_table_len(
                    after,
                    start_depth,
                    (depth - 1) as u8,
                    next,
                    negated(beta),
                    negated(score),
                    None,
                    true,
                );
            }
        }
    }
}

/// The root search leaves the table as long as it was.
pub proof fn lemma_root_moves_keep_table_len(
    st: SearchState,
    depth: u8,
    pos: Position,
    moves: Seq<ChessMove>,
    from: int,
    alpha: ScoreTy,
    best: Option<(ChessMove, ScoreTy)>,
    pv: Option<ChessMove>,
)
    requires
        0 < st.table.len() <= usize::MAX,
    ensures
        root_moves_spec(st, depth, pos, moves, from, alpha, best, pv).0.table.len()
            == st.table.len(),
    decreases moves.len() - from,
{
    if !(depth == 0 || from < 0 || from >= moves.len()) {
        let m = moves[from];
        lemma_pvs_keeps_table_len(
            st,
            depth,
            (depth - 1) as u8,
            position_after(pos, m),
            negated(P_INF),
            negated(alpha),
            pv,
            true,
        );
        let (after, found) = pvs_spec(
            st,
            depth,
            (depth - 1) as u8,
            position_after(pos, m),
            negated(P_INF),
            negated(alpha),
            pv,
            true,
        );
        let score = negated(found);
        if score > alpha {
            lemma_root_moves_keep_table_len(after, depth, pos, moves, from + 1, score, Some((m, score)), pv);
        } else {
            lemma_root_moves_keep_table_len(after, depth, pos, moves, from + 1, alpha, best, pv);
        }
    }
}

/// The root search and iterative deepening leave the table as long as it was.
pub proof fn lemma_deepening_keeps_table_len(
    st: SearchState,
    max_depth: u8,
    pos: Position,
    pv: Option<ChessMove>,
)
    requires
        0 < st.table.len() <= usize::MAX,
    ensures
        pvs_root_spec(st, max_depth, pos, pv).0.table.len() == st.table.len(),
        best_move_spec(st, max_depth, pos).0.table.len() == st.table.len(),
    decreases max_depth,
{
    reveal(pvs_root_spec);
    lemma_root_moves_keep_table_len(st, max_depth, pos, pos.moves(), 0, N_INF, None, pv);
    if max_depth > 0 {
        lemma_deepening_keeps_table_len(st, (max_depth - 1) as u8, pos, pv);
        let (before, best) = best_move_spec(st, (max_depth - 1) as u8, pos);
        reveal(pvs_root_spec);
        lemma_root_moves_keep_table_len(
            before,
            max_depth,
            pos,
            pos.moves(),
            0,
            N_INF,
            None,
            hint_of(best),
        );
    }
}

/// Inside a window, the quiescence search over the captures stays inside it
/// and never falls below the `alpha` it starts with.
pub proof fn lemma_quiesce_moves_bounds(
    nodes: usize,
    pos: Position,
    moves: Seq<ChessMove>,
    from: int,
    alpha: ScoreTy,
    beta: ScoreTy,
)
    requires
        alpha < beta,
    ensures
        alpha <= quiesce_moves_spec(nodes, pos, moves, from, alpha, beta).1 <= beta,
    decreases moves.len() - from,
{
    if 0 <= from < moves.len() {
        let next = position_after(pos, moves[from]);
        if next.men() < pos.men() {
            let (counted, found) = quiesce_spec(nodes, next, negated(beta), negated(alpha));
            let score = negated(found);
            if score < beta {
                lemma_quiesce_moves_bounds(counted, pos, moves, from + 1, higher(alpha, score), beta);
            }
        } else {
            lemma_quiesce_moves_bounds(nodes, pos, moves, from + 1, alpha, beta);
        }
    }
}

/// Quiescence never does worse than doing nothing: in the full window its
/// score is at least the static score of the position.
pub proof fn lemma_quiesce_at_least_standing_pat(nodes: usize, pos: Position)
    ensures
        quiesce_spec(nodes, pos, N_INF, P_INF).1 >= static_score(pos),
{
    crate::eval::lemma_evaluation_range(pos);
    let standing_pat = static_score(pos);
    lemma_quiesce_moves_bounds(
        bump(nodes),
        pos,
        ordered_qs(pos, pos.captures()),
        0,
        higher(N_INF, standing_pat),
        P_INF,
    );
}

/// The move leads to a position in which the other side is mated.
pub open spec fn mates(pos: Position, m: ChessMove) -> bool {
    position_after(pos, m).status_of() == BoardStatus::Checkmate
}

/// The index of the first move from index `from` on that mates, or the number
/// of moves if none does.
pub open spec fn first_mate(pos: Position, moves: Seq<ChessMove>, from: int) -> int
    decreases moves.len() - from,
{
    if from < 0 || from >= moves.len() {
        moves.len() as int
    } else if mates(pos, moves[from]) {
        from
    } else {
        first_mate(pos, moves, from + 1)
    }
}

/// No lookup in the table finds anything.
pub open spec fn all_miss(table: Seq<CacheItem>) -> bool {
    forall|hash: u64| lookup(table, hash) is None
}

/// Where the table holds nothing, a search to depth zero is the quiescence
/// search: it counts its node and leaves table and killers alone.
pub proof fn lemma_leaf_search(
    st: SearchState,
    start_depth: u8,
    pos: Position,
    alpha: ScoreTy,
    beta: ScoreTy,
    pv: Option<ChessMove>,
    can_null: bool,
)
    requires
        all_miss(st.table),
    ensures
        pvs_spec(st, start_depth, 0, pos, alpha, beta, pv, can_null) == (
            st.with_nodes(quiesce_spec(bump(st.nodes), pos, alpha, beta).0),
            quiesce_spec(bump(st.nodes), pos, alpha, beta).1,
        ),
{
    reveal(pvs_spec);
    assert(lookup(st.table, position_hash(pos)) is None);
}

/// The quiescence search of a position is at least its static score, unless
/// that lies above the window, and at least the mated score.
pub proof fn lemma_quiesce_floor(nodes: usize, pos: Position, alpha: ScoreTy, beta: ScoreTy)
    requires
        is_window(alpha as int, beta as int),
    ensures
        quiesce_spec(nodes, pos, alpha, beta).1 >= lower(beta, static_score(pos)),
        alpha <= quiesce_spec(nodes, pos, alpha, beta).1 <= beta,
        pos.status_of() == BoardStatus::Checkmate ==> quiesce_spec(nodes, pos, alpha, beta).1 == (
        if MATED >= beta {
            beta
        } else {
            higher(alpha, MATED)
        }),
{
    crate::eval::lemma_evaluation_range(pos);
    let standing_pat = static_score(pos);
    if standing_pat < beta {
        lemma_quiesce_moves_bounds(
            bump(nodes),
            pos,
            ordered_qs(pos, pos.captures()),
            0,
            higher(alpha, standing_pat),
            beta,
        );
        if pos.status_of() == BoardStatus::Checkmate {
            assert(pos.captures().len() == 0);
            assert(ordered_qs(pos, pos.captures()).len() == 0);
        }
    }
}

/// Once the root search of depth one has found a mate, no later move takes
/// its place.
pub proof fn lemma_root_keeps_mate(
    st: SearchState,
    pos: Position,
    moves: Seq<ChessMove>,
    from: int,
    best: Option<(ChessMove, ScoreTy)>,
    pv: Option<ChessMove>,
)
    requires
        all_miss(st.table),
    ensures
        root_moves_spec(st, 1, pos, moves, from, -MATED as ScoreTy, best, pv).1 == best,
    decreases moves.len() - from,
{
    if 0 <= from < moves.len() {
        let next = position_after(pos, moves[from]);
        let alpha: ScoreTy = 32766;
        lemma_leaf_search(st, 1, next, negated(P_INF), negated(alpha), pv, true);
        lemma_quiesce_floor(bump(st.nodes), next, negated(P_INF), negated(alpha));
        let after = pvs_spec(st, 1, 0, next, negated(P_INF), negated(alpha), pv, true).0;
        lemma_root_keeps_mate(after, pos, moves, from + 1, best, pv);
    }
}

/// The root search of depth one on a table that holds nothing returns the
/// first move that mates, with the mate score, if there is such a move among
/// those still to be tried and no mate has been found yet.
pub proof fn lemma_root_finds_mate(
    st: SearchState,
    pos: Position,
    moves: Seq<ChessMove>,
    from: int,
    alpha: ScoreTy,
    best: Option<(ChessMove, ScoreTy)>,
    pv: Option<ChessMove>,
)
    requires
        all_miss(st.table),
        0 <= from,
        N_INF <= alpha < -MATED,
        first_mate(pos, moves, from) < moves.len(),
    ensures
        root_moves_spec(st, 1, pos, moves, from, alpha, best, pv).1 == Some(
            (moves[first_mate(pos, moves, from)], -MATED as ScoreTy),
        ),
    decreases moves.len() - from,
{
    let m = moves[from];
    let next = position_after(pos, m);
    lemma_leaf_search(st, 1, next, negated(P_INF), negated(alpha), pv, true);
    lemma_quiesce_floor(bump(st.nodes), next, negated(P_INF), negated(alpha));
    crate::eval::lemma_evaluation_range(next);
    let (after, found) = pvs_spec(st, 1, 0, next, negated(P_INF), negated(alpha), pv, true);
    let score = negated(found);
    if mates(pos, m) {
        assert(score == 32766);
        lemma_root_keeps_mate(after, pos, moves, from + 1, Some((m, score)), pv);
    } else {
        assert(score < 32766);
        if score > alpha {
            lemma_root_finds_mate(after, pos, moves, from + 1, score, Some((m, score)), pv);
        } else {
            lemma_root_finds_mate(after, pos, moves, from + 1, alpha, best, pv);
        }
    }
}

/// The first mating move is a move of the list and mates.
pub proof fn lemma_first_mate(pos: Position, moves: Seq<ChessMove>, from: int)
    requires
        0 <= from,
    ensures
        first_mate(pos, moves, from) <= moves.len(),
        first_mate(pos, moves, from) < moves.len() ==> from <= first_mate(pos, moves, from) && mates(
            pos,
            moves[first_mate(pos, moves, from)],
        ),
        forall|i: int|
            from <= i < moves.len() && mates(pos, #[trigger] moves[i]) ==> first_mate(pos, moves, from)
                <= i,
    decreases moves.len() - from,
{
    if from < moves.len() && !mates(pos, moves[from]) {
        lemma_first_mate(pos, moves, from + 1);
    }
}

/// Mate in one: where a legal move mates at once, a search of depth one on a
/// table that holds nothing returns a move that mates at once, the first of
/// them in generation order, with the mate score. This holds of the root
/// search and of iterative deepening, whatever the hint.
pub proof fn lemma_mate_in_one_is_found(st: SearchState, pos: Position, pv: Option<ChessMove>, at: int)
    requires
        all_miss(st.table),
        0 <= at < pos.moves().len(),
        mates(pos, pos.moves()[at]),
    ensures
        pvs_root_spec(st, 1, pos, pv).1 == Some(
            (pos.moves()[first_mate(pos, pos.moves(), 0)], -MATED as ScoreTy),
        ),
        best_move_spec(st, 1, pos).1 == pvs_root_spec(st, 1, pos, None).1,
        mates(pos, pos.moves()[first_mate(pos, pos.moves(), 0)]),
        0 <= first_mate(pos, pos.moves(), 0) <= at,
{
    reveal(pvs_root_spec);
    reveal_with_fuel(best_move_spec, 2);
    lemma_first_mate(pos, pos.moves(), 0);
    lemma_root_finds_mate(st, pos, pos.moves(), 0, N_INF, None, pv);
    lemma_root_finds_mate(st, pos, pos.moves(), 0, N_INF, None, None);
}

/// Determinism: two workers that start in the same state and see no stop
/// signal leave the same state and return the same move and score, whatever
/// position and depth they are given.
pub proof fn lemma_equal_workers_agree(
    first: Engine,
    second: Engine,
    max_depth: u8,
    pos: Position,
    first_found: (SearchState, Option<(ChessMove, ScoreTy)>),
    second_found: (SearchState, Option<(ChessMove, ScoreTy)>),
)
    requires
        first.state() == second.state(),
        first_found == best_move_spec(first.state(), max_depth, pos),
        second_found == best_move_spec(second.state(), max_depth, pos),
    ensures
        first_found == second_found,
{
}

/// One search worker: the transposition table it works on, its killer moves,
/// its node count, and whether it has seen the stop signal.
pub struct Engine {
    memo: TTable,
    killer_moves: Killers,
    nodes_searched: usize,
    cached_timeup: bool,
    search_id: usize,
}

fn probe(found: Option<CacheItem>, depth: u8, alpha: ScoreTy, beta: ScoreTy) -> (outcome: Probe)
    ensures
        outcome == probe_spec(found, depth, alpha, beta),
{
    match found {
        Some(entry) => {
            if entry.depth >= depth && MATED <= entry.value && entry.value <= -MATED {
                match entry.flag {
                    Flag::Exact => Probe::Cut(entry.value),
                    Flag::LowerBound => {
                        let lo = max_score(alpha, entry.value);
                        if lo >= beta {
                            Probe::Cut(entry.value)
                        } else {
                            Probe::Search(lo, beta)
                        }
                    },
                    Flag::UpperBound => {
                        let hi = min_score(beta, entry.value);
                        if alpha >= hi {
                            Probe::Cut(entry.value)
                        } else {
                            Probe::Search(alpha, hi)
                        }
                    },
                }
            } else {
                Probe::Search(alpha, beta)
            }
        },
        None => Probe::Search(alpha, beta),
    }
}

fn is_far_from_mate(beta: ScoreTy) -> (far: bool)
    requires
        N_INF <= beta,
    ensures
        far == far_from_mate(beta),
{
    let below: ScoreTy = beta - 1;
    -(P_INF - MATE_MARGIN) < below && below < P_INF - MATE_MARGIN
}

fn classify(best: ScoreTy, alpha: ScoreTy, beta: ScoreTy) -> (flag: Flag)
    ensures
        flag == bound_flag(best, alpha, beta),
{
    if best <= alpha {
        Flag::UpperBound
    } else if best >= beta {
        Flag::LowerBound
    } else {
        Flag::Exact
    }
}

/// How a step that may settle a node went.
#[derive(Clone, Copy, Debug, PartialEq, Eq)]
pub enum Step {
    /// The stop signal was seen.
    Stopped,
    /// The node is settled with this score.
    Settled(ScoreTy),
    /// The node is still to be searched.
    Open,
}

impl Step {
    /// The score that the step settled on, if it did.
    pub open spec fn settled(self) -> Option<ScoreTy> {
        match self {
            Step::Settled(score) => Some(score),
            _ => None,
        }
    }
}

/// Reverse futility pruning: the score that settles the node, if it does.
fn futility(board: Position, depth: u8, beta: ScoreTy) -> (settled: Option<ScoreTy>)
    requires
        N_INF < beta <= P_INF,
    ensures
        settled == if futility_tried(board, depth, beta) && futility_score(board, depth) >= beta {
            Some(futility_score(board, depth))
        } else {
            None
        },
        settled is Some ==> is_value(settled.unwrap() as int),
{
    if depth < 3 && !board.in_check() && is_far_from_mate(beta) {
        let static_eval = evaluate(board);
        let eval_margin = FUTILITY_MARGIN * depth as ScoreTy;
        if (static_eval - eval_margin) >= beta {
            Some(static_eval - eval_margin)
        } else {
            None
        }
    } else {
        None
    }
}

/// Whether the stop signal is set; it never is where there is none.
fn stop_requested(stop: Option<&AtomicBool>) -> (seen: bool)
    ensures
        stop is None ==> !seen,
{
    match stop {
        Some(signal) => signal.load(Ordering::SeqCst),
        None => false,
    }
}

impl Engine {
    /// The worker's table is well formed.
    pub closed spec fn wf(&self) -> bool {
        self.memo.wf()
    }

    /// What the worker's next search reads.
    pub closed spec fn state(&self) -> SearchState {
        SearchState {
            table: self.memo@,
            killers: killer_rows(self.killer_moves),
            nodes: self.nodes_searched,
        }
    }

    /// Whether the worker has seen the stop signal. Once it has, it searches
    /// no more.
    pub closed spec fn stopped(&self) -> bool {
        self.cached_timeup
    }

    /// The number that tells this worker from the others of a search.
    pub closed spec fn id(&self) -> usize {
        self.search_id
    }

    /// Makes the first worker of a search, with a table of `size` entries.
    pub fn new(size: usize) -> (engine: Engine)
        requires
            crate::transposition::is_table_size(size),
        ensures
            engine.wf(),
            !engine.stopped(),
            engine.id() == 1,
            engine.state() == (SearchState {
                table: empty_table(size as nat),
                killers: fresh_killers(),
                nodes: 0,
            }),
            forall|hash: u64| lookup(engine.state().table, hash) is None,
    {
        Engine::with_table(1, TTable::new(size))
    }

    /// Makes the first worker of a search, with a table of `size` entries,
    /// if `size` is a power of two.
    pub fn try_new(size: usize) -> (made: Option<Engine>)
        ensures
            made is Some == crate::transposition::is_table_size(size),
            made is Some ==> made.unwrap().wf() && !made.unwrap().stopped() && made.unwrap().id() == 1
                && made.unwrap().state() == (SearchState {
                table: empty_table(size as nat),
                killers: fresh_killers(),
                nodes: 0,
            }),
            made is Some ==> forall|hash: u64| lookup(made.unwrap().state().table, hash) is None,
    {
        if crate::transposition::is_power_of_two(size) {
            Some(Engine::new(size))
        } else {
            None
        }
    }

    /// Makes worker number `search_id` on a table.
    pub fn with_table(search_id: usize, memo: TTable) -> (engine: Engine)
        requires
            memo.wf(),
        ensures
            engine.wf(),
            !engine.stopped(),
            engine.id() == search_id,
            engine.state() == (SearchState { table: memo@, killers: fresh_killers(), nodes: 0 }),
    {
        let row: [Option<ChessMove>; 3] = [None, None, None];
        assert(row@ =~= no_killers());
        let killer_moves = killers_from_elem(row, DEPTH);
        assert(killer_rows(killer_moves) =~= fresh_killers());
        Engine { memo, killer_moves, nodes_searched: 0, cached_timeup: false, search_id }
    }

    /// The worker's number.
    pub fn search_id(&self) -> (id: usize)
        ensures
            id == self.id(),
    {
        self.search_id
    }

    /// Whether the worker has seen the stop signal.
    pub fn is_stopped(&self) -> (stopped: bool)
        ensures
            stopped == self.stopped(),
    {
        self.cached_timeup
    }

    /// How many nodes the worker has counted since the count last started.
    pub fn nodes_searched(&self) -> (nodes: usize)
        ensures
            nodes == self.state().nodes,
    {
        self.nodes_searched
    }

    /// The worker's table.
    pub fn memo(&self) -> (memo: &TTable)
        ensures
            memo@ == self.state().table,
            memo.wf() == self.wf(),
    {
        &self.memo
    }

    /// Exchanges the worker's table for another.
    pub fn swap_table(&mut self, table: &mut TTable)
        ensures
            final(self).state() == old(self).state().with_table(old(table)@),
            final(table)@ == old(self).state().table,
            final(self).wf() == old(table).wf(),
            final(table).wf() == old(self).wf(),
            final(self).stopped() == old(self).stopped(),
            final(self).id() == old(self).id(),
    {
        core::mem::swap(&mut self.memo, table);
    }

    /// Quiescence search: the static score, improved by the captures that
    /// improve it, inside the window.
    pub fn quiesce(&mut self, board: Position, alpha: ScoreTy, beta: ScoreTy) -> (score: ScoreTy)
        requires
            is_window(alpha as int, beta as int),
        ensures
            (final(self).state().nodes, score) == quiesce_spec(
                old(self).state().nodes,
                board,
                alpha,
                beta,
            ),
            final(self).state().table == old(self).state().table,
            final(self).state().killers == old(self).state().killers,
            final(self).wf() == old(self).wf(),
            final(self).id() == old(self).id(),
            final(self).stopped() == old(self).stopped(),
            alpha <= score <= beta,
            is_value(score as int),
            score >= static_score(board) || score == beta,
            beta > EVAL_LIMIT ==> score >= static_score(board),
        decreases board.men(), 1nat, 0nat,
    {
        let ghost entry = *old(self);
        let ghost goal = quiesce_spec(entry.nodes_searched, board, alpha, beta);
        self.nodes_searched = if self.nodes_searched == usize::MAX {
            0
        } else {
            self.nodes_searched + 1
        };
        let standing_pat = evaluate(board);
        if standing_pat >= beta {
            return beta;
        }
        let mut raised = alpha;
        if raised < standing_pat {
            raised = standing_pat
        }
        let mut possible_moves = board.capture_moves();
        proof {
            lemma_sorted_by_permutes(
                board.captures(),
                |m: ChessMove| crate::move_sort::capture_rank(board, m),
            );
        }
        sort_qs(&board, &mut possible_moves);
        let men = board.count_men();
        let count = possible_moves.len();
        let mut i: usize = 0;
        while i < count
            invariant
                i <= count,
                count == possible_moves@.len(),
                forall|k: int|
                    0 <= k < possible_moves@.len() ==> board.is_legal(#[trigger] possible_moves@[k]),
                men == board.men(),
                is_window(raised as int, beta as int),
                MATED <= raised,
                alpha <= raised,
                static_score(board) <= raised,
                entry == *old(self),
                self.state().table == entry.state().table,
                self.state().killers == entry.state().killers,
                self.wf() == entry.wf(),
                self.id() == entry.id(),
                self.stopped() == entry.stopped(),
                goal == quiesce_spec(entry.nodes_searched, board, alpha, beta),
                goal == quiesce_moves_spec(
                    self.nodes_searched,
                    board,
                    possible_moves@,
                    i as int,
                    raised,
                    beta,
                ),
            decreases count - i,
        {
            let m = possible_moves[i];
            let new_board = board.make_move_new(m);
            if new_board.count_men() < men {
                let score = -self.quiesce(new_board, -beta, -raised);
                if score >= beta {
                    return beta;
                }
                if score > raised {
                    raised = score;
                }
            }
            i = i + 1;
        }
        raised
    }

    /// The killer moves kept for `ply`, the newest first.
    pub fn killer_row(&self, ply: usize) -> (row: [Option<ChessMove>; 3])
        ensures
            row@ == killers_at(self.state().killers, ply as int),
    {
        match killers_get(&self.killer_moves, ply) {
            Some(row) => row,
            None => {
                let row: [Option<ChessMove>; 3] = [None, None, None];
                assert(row@ =~= no_killers());
                row
            },
        }
    }

    /// The legal moves of a node in the order in which it tries them.
    fn ordered_moves(&self, board: Position, ply: usize) -> (moves: Vec<ChessMove>)
        ensures
            moves@ == ordered(board, killers_at(self.state().killers, ply as int), board.moves()),
            moves@.len() == board.moves().len(),
            forall|k: int| 0 <= k < moves@.len() ==> board.is_legal(#[trigger] moves@[k]),
    {
        let mut moves = board.legal_moves();
        let killer_moves = self.killer_row(ply);
        let ghost unsorted = moves@;
        proof {
            lemma_sorted_by_permutes(
                unsorted,
                |m: ChessMove| crate::move_sort::move_rank(board, killer_moves@, m),
            );
        }
        sort_moves(&board, &mut moves, &killer_moves);
        assert forall|k: int| 0 <= k < moves@.len() implies board.is_legal(#[trigger] moves@[k]) by {
            assert(unsorted.contains(moves@[k]));
            let at = choose|at: int| 0 <= at < unsorted.len() && unsorted[at] == moves@[k];
            assert(board.is_legal(unsorted[at]));
        }
        moves
    }

    fn record_killer(&mut self, ply: usize, m: ChessMove)
        ensures
            final(self).state() == old(self).state().with_killers(
                with_killer(old(self).state().killers, ply as int, m),
            ),
            final(self).wf() == old(self).wf(),
            final(self).id() == old(self).id(),
            final(self).stopped() == old(self).stopped(),
    {
        let ghost before = killer_rows(self.killer_moves);
        let empty: [Option<ChessMove>; 3] = [None, None, None];
        assert(empty@ =~= no_killers());
        while killers_len(&self.killer_moves) <= ply
            invariant
                empty@ == no_killers(),
                self.memo == old(self).memo,
                self.nodes_searched == old(self).nodes_searched,
                self.cached_timeup == old(self).cached_timeup,
                self.search_id == old(self).search_id,
                before == killer_rows(old(self).killer_moves),
                before.len() <= killer_rows(self.killer_moves).len(),
                killer_rows(self.killer_moves).len() > before.len() ==> killer_rows(
                    self.killer_moves,
                ).len() <= ply + 1,
                killer_rows(self.killer_moves) =~= before + Seq::new(
                    (killer_rows(self.killer_moves).len() - before.len()) as nat,
                    |i: int| no_killers(),
                ),
            decreases ply + 1 - killer_rows(self.killer_moves).len(),
        {
            killers_push(&mut self.killer_moves, empty);
        }
        assert(killer_rows(self.killer_moves) =~= rows_upto(before, ply as int));
        match killers_get(&self.killer_moves, ply) {
            Some(row) => {
                let newest: [Option<ChessMove>; 3] = [Some(m), row[0], row[1]];
                assert(newest@ =~= seq![Some(m), row@[0], row@[1]]);
                killers_set(&mut self.killer_moves, ply, newest);
            },
            None => {},
        }
    }

    /// Scores one move of a node, from the position it leads to.
    fn search_move(
        &mut self,
        start_depth: u8,
        depth: u8,
        next: Position,
        alpha: ScoreTy,
        beta: ScoreTy,
        principal: bool,
        stop: Option<&AtomicBool>,
    ) -> (found: Option<ScoreTy>)
        requires
            old(self).wf(),
            0 < depth <= start_depth,
            is_window(alpha as int, beta as int),
        ensures
            final(self).wf(),
            final(self).id() == old(self).id(),
            final(self).state().table.len() == old(self).state().table.len(),
            found is None <==> final(self).stopped(),
            stop is None && !old(self).stopped() ==> !final(self).stopped(),
            found is Some ==> (final(self).state(), found.unwrap()) == move_score_spec(
                old(self).state(),
                start_depth,
                depth,
                next,
                alpha,
                beta,
                principal,
            ),
            found is Some ==> is_value(found.unwrap() as int),
        decreases depth, 0nat, 0nat,
    {
        if principal {
            match self.pvs_inner(start_depth, depth - 1, next, -beta, -alpha, None, true, stop) {
                Some(found) => Some(-found),
                None => None,
            }
        } else {
            let score = match self.pvs_inner(
                start_depth,
                depth - 1,
                next,
                -alpha - 1,
                -alpha,
                None,
                true,
                stop,
            ) {
                Some(found) => -found,
                None => {
                    return None;
                },
            };
            if alpha < score && score < beta {
                match self.pvs_inner(start_depth, depth - 1, next, -beta, -score, None, true, stop) {
                    Some(refound) => Some(-refound),
                    None => None,
                }
            } else {
                Some(score)
            }
        }
    }

    /// The null-move step of a node.
    fn try_null_move(
        &mut self,
        start_depth: u8,
        depth: u8,
        board: Position,
        beta: ScoreTy,
        can_null: bool,
        stop: Option<&AtomicBool>,
    ) -> (step: Step)
        requires
            old(self).wf(),
            !old(self).stopped(),
            depth <= start_depth,
            N_INF < beta <= P_INF,
        ensures
            final(self).wf(),
            final(self).id() == old(self).id(),
            final(self).state().table.len() == old(self).state().table.len(),
            step is Stopped <==> final(self).stopped(),
            stop is None ==> !final(self).stopped(),
            !(step is Stopped) ==> (final(self).state(), step.settled()) == null_move_spec(
                old(self).state(),
                start_depth,
                depth,
                board,
                beta,
                can_null,
            ),
            step is Settled ==> is_value(step->Settled_0 as int),
        decreases depth, 2nat, 0nat,
    {
        let not_checked = !board.in_check();
        let not_endgame = !is_endgame(board);
        if not_checked && can_null && depth > R && is_far_from_mate(beta) && not_endgame {
            let adapt_r = if depth > 6 {
                R + 1
            } else {
                R
            };
            match board.null_move() {
                Some(nulled) => {
                    match self.pvs_inner(
                        start_depth,
                        depth - 1 - adapt_r,
                        nulled,
                        -beta,
                        -beta + 1,
                        None,
                        false,
                        stop,
                    ) {
                        Some(found) => {
                            let score = -found;
                            if score >= beta {
                                Step::Settled(score)
                            } else {
                                Step::Open
                            }
                        },
                        None => Step::Stopped,
                    }
                },
                None => Step::Open,
            }
        } else {
            Step::Open
        }
    }

    /// The search of a node's moves, in their order.
    fn search_moves(
        &mut self,
        start_depth: u8,
        depth: u8,
        board: Position,
        possible_moves: &Vec<ChessMove>,
        alpha: ScoreTy,
        beta: ScoreTy,
        pv: Option<ChessMove>,
        stop: Option<&AtomicBool>,
    ) -> (found: Option<ScoreTy>)
        requires
            old(self).wf(),
            !old(self).stopped(),
            0 < depth <= start_depth,
            is_window(alpha as int, beta as int),
            possible_moves@.len() > 0,
            forall|k: int|
                0 <= k < possible_moves@.len() ==> board.is_legal(#[trigger] possible_moves@[k]),
        ensures
            final(self).wf(),
            final(self).id() == old(self).id(),
            final(self).state().table.len() == old(self).state().table.len(),
            found is None <==> final(self).stopped(),
            stop is None && !old(self).stopped() ==> !final(self).stopped(),
            found is Some ==> (final(self).state(), found.unwrap()) == pvs_moves_spec(
                old(self).state(),
                start_depth,
                depth,
                board,
                possible_moves@,
                0,
                alpha,
                beta,
                pv,
                true,
            ),
            found is Some ==> is_value(found.unwrap() as int),
        decreases depth, 1nat, 1nat,
    {
        let ghost goal = pvs_moves_spec(
            self.state(),
            start_depth,
            depth,
            board,
            possible_moves@,
            0,
            alpha,
            beta,
            pv,
            true,
        );
        let ply = (start_depth - depth) as usize;
        let count = possible_moves.len();
        let mut raised = alpha;
        let mut is_pv = true;
        let mut cut = false;
        let mut i: usize = 0;
        while i < count && !cut
            invariant
                i <= count,
                count == possible_moves@.len(),
                count > 0,
                forall|k: int|
                    0 <= k < possible_moves@.len() ==> board.is_legal(#[trigger] possible_moves@[k]),
                self.wf(),
                self.id() == old(self).id(),
                !self.stopped(),
                self.state().table.len() == old(self).state().table.len(),
                0 < depth <= start_depth,
                ply == start_depth - depth,
                N_INF <= raised <= -MATED,
                beta <= P_INF,
                !cut ==> raised < beta,
                (i > 0 || cut) ==> MATED <= raised,
                !cut ==> goal == pvs_moves_spec(
                    self.state(),
                    start_depth,
                    depth,
                    board,
                    possible_moves@,
                    i as int,
                    raised,
                    beta,
                    pv,
                    is_pv,
                ),
                cut ==> goal == (self.state(), raised),
            decreases count - i + (if cut { 0int } else { 1int }),
        {
            let m = possible_moves[i];
            let new_board = board.make_move_new(m);
            let principal = match pv {
                Some(hint) => hint == m && is_pv,
                None => i == 0,
            };
            if pv == Some(m) {
                is_pv = false;
            }
            let best_score = match self.search_move(
                start_depth,
                depth,
                new_board,
                raised,
                beta,
                principal,
                stop,
            ) {
                Some(score) => score,
                None => {
                    return None;
                },
            };
            raised = max_score(raised, best_score);
            if raised >= beta {
                if board.piece_on(m.dest).is_none() {
                    self.record_killer(ply, m);
                }
                cut = true;
            } else {
                i = i + 1;
            }
        }
        Some(raised)
    }

    /// The moves of a node, searched in their order, and the entry that the
    /// node leaves in the table.
    fn search_full(
        &mut self,
        start_depth: u8,
        depth: u8,
        board: Position,
        alpha: ScoreTy,
        lo: ScoreTy,
        hi: ScoreTy,
        pv: Option<ChessMove>,
        stop: Option<&AtomicBool>,
    ) -> (found: Option<ScoreTy>)
        requires
            old(self).wf(),
            !old(self).stopped(),
            0 < depth <= start_depth,
            is_window(lo as int, hi as int),
            board.moves().len() > 0,
        ensures
            final(self).wf(),
            final(self).id() == old(self).id(),
            final(self).state().table.len() == old(self).state().table.len(),
            found is None <==> final(self).stopped(),
            stop is None && !old(self).stopped() ==> !final(self).stopped(),
            found is Some ==> (final(self).state(), found.unwrap()) == full_search_spec(
                old(self).state(),
                start_depth,
                depth,
                board,
                alpha,
                lo,
                hi,
                pv,
            ),
            found is Some ==> is_value(found.unwrap() as int),
        decreases depth, 2nat, 0nat,
    {
        let ply = (start_depth - depth) as usize;
        let possible_moves = self.ordered_moves(board, ply);
        match self.search_moves(start_depth, depth, board, &possible_moves, lo, hi, pv, stop) {
            Some(raised) => {
                let entry_flag = classify(raised, alpha, hi);
                self.memo.set(CacheItem::new(depth, entry_flag, raised, board.get_hash()));
                Some(raised)
            },
            None => None,
        }
    }

    /// The search of a node that the table did not settle.
    fn search_node(
        &mut self,
        start_depth: u8,
        depth: u8,
        board: Position,
        alpha: ScoreTy,
        lo: ScoreTy,
        hi: ScoreTy,
        pv: Option<ChessMove>,
        can_null: bool,
        stop: Option<&AtomicBool>,
    ) -> (found: Option<ScoreTy>)
        requires
            old(self).wf(),
            !old(self).stopped(),
            depth <= start_depth,
            is_window(lo as int, hi as int),
        ensures
            final(self).wf(),
            final(self).id() == old(self).id(),
            final(self).state().table.len() == old(self).state().table.len(),
            found is None <==> final(self).stopped(),
            stop is None && !old(self).stopped() ==> !final(self).stopped(),
            found is Some ==> (final(self).state(), found.unwrap()) == node_spec(
                old(self).state(),
                start_depth,
                depth,
                board,
                alpha,
                lo,
                hi,
                pv,
                can_null,
            ),
            found is Some ==> is_value(found.unwrap() as int),
        decreases depth, 3nat, 0nat,
    {
        if depth == 0 || game_over(board) {
            return Some(self.quiesce(board, lo, hi));
        }
        match self.try_null_move(start_depth, depth, board, hi, can_null, stop) {
            Step::Stopped => {
                return None;
            },
            Step::Settled(score) => {
                return Some(score);
            },
            Step::Open => {},
        }
        match futility(board, depth, hi) {
            Some(score) => Some(score),
            None => self.search_full(start_depth, depth, board, alpha, lo, hi, pv, stop),
        }
    }

    /// One node of the principal-variation search.
    fn pvs_inner(
        &mut self,
        start_depth: u8,
        depth: u8,
        board: Position,
        alpha: ScoreTy,
        beta: ScoreTy,
        pv: Option<ChessMove>,
        can_null: bool,
        stop: Option<&AtomicBool>,
    ) -> (found: Option<ScoreTy>)
        requires
            old(self).wf(),
            depth <= start_depth,
            is_window(alpha as int, beta as int),
        ensures
            final(self).wf(),
            final(self).id() == old(self).id(),
            final(self).state().table.len() == old(self).state().table.len(),
            old(self).stopped() ==> final(self).stopped(),
            old(self).stopped() ==> final(self).state() == old(self).state(),
            found is None <==> final(self).stopped(),
            stop is None && !old(self).stopped() ==> !final(self).stopped(),
            found is Some ==> (final(self).state(), found.unwrap()) == pvs_rec(
                old(self).state(),
                start_depth,
                depth,
                board,
                alpha,
                beta,
                pv,
                can_null,
            ),
            found is Some ==> is_value(found.unwrap() as int),
        decreases depth, 4nat, 0nat,
    {
        if !self.cached_timeup && (self.nodes_searched & POLL_MASK) == 0 {
            self.cached_timeup = stop_requested(stop);
        }
        if self.cached_timeup {
            return None;
        }
        match probe(self.memo.get(board.get_hash()), depth, alpha, beta) {
            Probe::Cut(value) => Some(value),
            Probe::Search(lo, hi) => {
                self.nodes_searched = if self.nodes_searched == usize::MAX {
                    0
                } else {
                    self.nodes_searched + 1
                };
                self.search_node(start_depth, depth, board, alpha, lo, hi, pv, can_null, stop)
            },
        }
    }

    /// Principal-variation search of `board` to `depth` plies, `start_depth`
    /// plies having been asked of the root. Nothing comes back once the
    /// worker has seen the stop signal.
    pub fn pvs(
        &mut self,
        start_depth: u8,
        depth: u8,
        board: Position,
        alpha: ScoreTy,
        beta: ScoreTy,
        pv: Option<ChessMove>,
        can_null: bool,
        stop: Option<&AtomicBool>,
    ) -> (found: Option<ScoreTy>)
        requires
            old(self).wf(),
            depth <= start_depth,
            is_window(alpha as int, beta as int),
        ensures
            final(self).wf(),
            final(self).id() == old(self).id(),
            final(self).state().table.len() == old(self).state().table.len(),
            old(self).stopped() ==> final(self).stopped(),
            old(self).stopped() ==> final(self).state() == old(self).state(),
            found is None <==> final(self).stopped(),
            stop is None && !old(self).stopped() ==> !final(self).stopped(),
            found is Some ==> (final(self).state(), found.unwrap()) == pvs_spec(
                old(self).state(),
                start_depth,
                depth,
                board,
                alpha,
                beta,
                pv,
                can_null,
            ),
            found is Some ==> is_value(found.unwrap() as int),
    {
        reveal(pvs_spec);
        self.pvs_inner(start_depth, depth, board, alpha, beta, pv, can_null, stop)
    }

    /// The root search: every legal move of `board` searched to `depth`, the
    /// best kept. Nothing comes back at depth zero, where the game is over,
    /// or once the stop signal has been seen.
    pub fn pvs_root(&mut self, depth: u8, board: Position, pv: Option<ChessMove>, stop: Option<&AtomicBool>) -> (found:
        Option<(ChessMove, ScoreTy)>)
        requires
            old(self).wf(),
        ensures
            final(self).wf(),
            final(self).id() == old(self).id(),
            final(self).state().table.len() == old(self).state().table.len(),
            old(self).stopped() ==> final(self).stopped(),
            old(self).stopped() ==> final(self).state() == old(self).state(),
            depth == 0 || board.moves().len() == 0 ==> final(self).state() == old(self).state(),
            stop is None && !old(self).stopped() ==> !final(self).stopped(),
            final(self).stopped() ==> found is None,
            !final(self).stopped() ==> (final(self).state(), found) == pvs_root_spec(
                old(self).state(),
                depth,
                board,
                pv,
            ),
            !final(self).stopped() && depth > 0 && board.moves().len() > 0 ==> found is Some,
            !final(self).stopped() && depth > 0 && board.moves().len() == 1 ==> found.unwrap().0
                == board.moves()[0],
            found is Some ==> board.moves().contains(found.unwrap().0) && is_value(
                found.unwrap().1 as int,
            ),
    {
        reveal(pvs_root_spec);
        let start_depth = depth;
        if depth == 0 || game_over(board) {
            return None;
        }
        let ghost goal = pvs_root_spec(self.state(), depth, board, pv);
        let mut alpha = N_INF;
        let beta = P_INF;
        let possible_moves = board.legal_moves();
        let mut best_move: Option<(ChessMove, ScoreTy)> = None;
        let count = possible_moves.len();
        let mut i: usize = 0;
        while i < count
            invariant
                i <= count,
                count == possible_moves@.len(),
                possible_moves@ == board.moves(),
                forall|k: int|
                    0 <= k < possible_moves@.len() ==> board.is_legal(#[trigger] possible_moves@[k]),
                self.wf(),
                self.id() == old(self).id(),
                self.state().table.len() == old(self).state().table.len(),
                i == 0 ==> self.stopped() == old(self).stopped() && self.state() == old(self).state(),
                i > 0 ==> !self.stopped() && !old(self).stopped(),
                depth > 0,
                start_depth == depth,
                beta == P_INF,
                N_INF <= alpha <= -MATED,
                i == 0 ==> alpha == N_INF && best_move is None,
                i > 0 ==> best_move is Some && best_move.unwrap().1 == alpha && MATED <= alpha,
                i == 1 ==> best_move.unwrap().0 == possible_moves@[0],
                best_move is Some ==> board.moves().contains(best_move.unwrap().0),
                !self.stopped() ==> goal == root_moves_spec(
                    self.state(),
                    depth,
                    board,
                    possible_moves@,
                    i as int,
                    alpha,
                    best_move,
                    pv,
                ),
            decreases count - i,
        {
            let m = possible_moves[i];
            let new_board = board.make_move_new(m);
            let score = match self.pvs(start_depth, depth - 1, new_board, -beta, -alpha, pv, true, stop) {
                Some(found) => -found,
                None => {
                    return None;
                },
            };
            if score > alpha {
                alpha = score;
                best_move = Some((m, alpha));
            }
            i = i + 1;
        }
        best_move
    }

    /// Iterative deepening: root searches at depth one, two and so on up to
    /// `max_depth`, each hinted with the best move of the one before. A stop
    /// signal ends the deepening, and the best move of the last depth that was
    /// searched to its end comes back.
    pub fn best_move(&mut self, max_depth: u8, board: Position, stop: Option<&AtomicBool>) -> (found: Option<
        (ChessMove, ScoreTy),
    >)
        requires
            old(self).wf(),
        ensures
            final(self).wf(),
            final(self).id() == old(self).id(),
            final(self).state().table.len() == old(self).state().table.len(),
            old(self).stopped() ==> final(self).stopped(),
            old(self).stopped() ==> found is None && final(self).state() == old(self).state(),
            stop is None && !old(self).stopped() ==> !final(self).stopped(),
            !final(self).stopped() ==> (final(self).state(), found) == best_move_spec(
                old(self).state(),
                max_depth,
                board,
            ),
            exists|reports: Seq<DepthInfo>|
                #[trigger] found_by_depth(old(self).state(), max_depth, board, found, reports),
            found is Some ==> board.moves().contains(found.unwrap().0) && is_value(
                found.unwrap().1 as int,
            ),
            !final(self).stopped() && max_depth > 0 && board.moves().len() > 0 ==> found is Some,
            board.moves().len() == 0 ==> found is None,
            found is Some && board.moves().len() == 1 ==> found.unwrap().0 == board.moves()[0],
    {
        let mut reports: Vec<DepthInfo> = Vec::new();
        let found = self.best_move_reported(max_depth, board, stop, &mut reports);
        assert(found_by_depth(old(self).state(), max_depth, board, found, reports@));
        found
    }

    /// One more depth of iterative deepening: the stop signal is read, and
    /// unless it is set the root is searched at `depth` with the best move so
    /// far as its hint. The best move comes back, which is the one found if
    /// the search found one and was not stopped, and a report of the depth is
    /// added to `reports` if it found one.
    pub fn deepen(
        &mut self,
        depth: u8,
        board: Position,
        best: Option<(ChessMove, ScoreTy)>,
        stop: Option<&AtomicBool>,
        reports: &mut Vec<DepthInfo>,
    ) -> (next: Option<(ChessMove, ScoreTy)>)
        requires
            old(self).wf(),
        ensures
            final(self).wf(),
            final(self).id() == old(self).id(),
            final(self).state().table.len() == old(self).state().table.len(),
            old(self).stopped() ==> final(self).stopped() && final(self).state() == old(self).state(),
            stop is None && !old(self).stopped() ==> !final(self).stopped(),
            final(self).stopped() ==> next == best && final(reports)@ == old(reports)@,
            !final(self).stopped() ==> final(self).state() == deepen_spec(
                old(self).state(),
                depth,
                board,
                best,
            ).0 && next == deepen_spec(old(self).state(), depth, board, best).1 && final(reports)@
                == old(reports)@ + deepen_spec(old(self).state(), depth, board, best).2,
            next != best ==> next is Some && board.moves().contains(next.unwrap().0) && is_value(
                next.unwrap().1 as int,
            ) && (board.moves().len() == 1 ==> next.unwrap().0 == board.moves()[0]),
            !final(self).stopped() && depth > 0 && board.moves().len() > 0 ==> next is Some,
    {
        if !self.cached_timeup {
            self.cached_timeup = stop_requested(stop);
        }
        if self.cached_timeup {
            return best;
        }
        let hint = match best {
            Some((m, _)) => Some(m),
            None => None,
        };
        let pvs_res = self.pvs_root(depth, board, hint, stop);
        let next = match pvs_res {
            Some((_, score)) => {
                reports.push(DepthInfo { depth, nodes: self.nodes_searched, score });
                assert(reports@ =~= old(reports)@ + seq![reports@.last()]);
                pvs_res
            },
            None => {
                assert(reports@ =~= old(reports)@ + Seq::<DepthInfo>::empty());
                best
            },
        };
        self.nodes_searched = 0;
        next
    }

    /// Iterative deepening as [`Engine::best_move`] does it, with a report
    /// added to `reports` for each depth that found a move.
    pub fn best_move_reported(
        &mut self,
        max_depth: u8,
        board: Position,
        stop: Option<&AtomicBool>,
        reports: &mut Vec<DepthInfo>,
    ) -> (found: Option<(ChessMove, ScoreTy)>)
        requires
            old(self).wf(),
        ensures
            final(self).wf(),
            final(self).id() == old(self).id(),
            final(self).state().table.len() == old(self).state().table.len(),
            old(self).stopped() ==> final(self).stopped(),
            old(self).stopped() ==> found is None && final(self).state() == old(self).state()
                && final(reports)@ == old(reports)@,
            stop is None && !old(self).stopped() ==> !final(self).stopped(),
            !final(self).stopped() ==> (final(self).state(), found) == best_move_spec(
                old(self).state(),
                max_depth,
                board,
            ),
            !final(self).stopped() ==> final(reports)@ == old(reports)@ + reports_spec(
                old(self).state(),
                max_depth,
                board,
            ),
            exists|added: Seq<DepthInfo>|
                final(reports)@ == old(reports)@ + added && #[trigger] found_by_depth(
                    old(self).state(),
                    max_depth,
                    board,
                    found,
                    added,
                ),
            found is Some ==> board.moves().contains(found.unwrap().0) && is_value(
                found.unwrap().1 as int,
            ),
            !final(self).stopped() && max_depth > 0 && board.moves().len() > 0 ==> found is Some,
            board.moves().len() == 0 ==> found is None,
            found is Some && board.moves().len() == 1 ==> found.unwrap().0 == board.moves()[0],
    {
        let ghost entry = self.state();
        let mut best_move: Option<(ChessMove, ScoreTy)> = None;
        let mut depth: u8 = 0;
        let ghost mut reached: u8 = 0;
        let mut running = true;
        proof {
            assert(reports@ =~= old(reports)@ + reports_spec(entry, 0, board));
        }
        while depth < max_depth && running
            invariant
                depth <= max_depth,
                reached <= depth,
                !running ==> self.stopped(),
                old(self).stopped() ==> self.stopped(),
                old(self).stopped() ==> best_move is None && self.state() == old(self).state()
                    && reports@ == old(reports)@,
                stop is None && !old(self).stopped() ==> !self.stopped(),
                self.wf(),
                self.id() == old(self).id(),
                self.state().table.len() == old(self).state().table.len(),
                entry == old(self).state(),
                !self.stopped() ==> reached == depth,
                !self.stopped() ==> self.state() == best_move_spec(entry, depth, board).0,
                best_move == best_move_spec(entry, reached, board).1,
                reports@ == old(reports)@ + reports_spec(entry, reached, board),
                best_move is Some ==> board.moves().contains(best_move.unwrap().0) && is_value(
                    best_move.unwrap().1 as int,
                ),
                !self.stopped() && depth > 0 && board.moves().len() > 0 ==> best_move is Some,
                board.moves().len() == 0 ==> best_move is None,
            decreases max_depth - depth + (if running { 1int } else { 0int }),
        {
            let ghost earlier = reports_spec(entry, depth, board);
            let ghost step = deepen_spec(self.state(), (depth + 1) as u8, board, best_move);
            best_move = self.deepen(depth + 1, board, best_move, stop, reports);
            if self.cached_timeup {
                running = false;
            } else {
                depth = depth + 1;
                proof {
                    reached = depth;
                    assert(reports@ =~= old(reports)@ + (earlier + step.2));
                    assert(earlier + step.2 =~= reports_spec(entry, depth, board));
                }
            }
        }
        assert(found_by_depth(
            old(self).state(),
            max_depth,
            board,
            best_move,
            reports_spec(entry, reached, board),
        ));
        best_move
    }
}

} // verus!
