use crabfish::eval::evaluate;
use crabfish::position::{ChessMove, Position};
use crabfish::score::{MATED, N_INF, P_INF};
use crabfish::search::{DepthInfo, Engine};
use crabfish::thread_launcher::{next_depth, stagger, BestMoveSlot, ThreadLauncher};
use crabfish::transposition::{CacheItem, Flag};
use std::sync::atomic::AtomicBool;

const START: &str = "rnbqkbnr/pppppppp/8/8/8/8/PPPPPPPP/RNBQKBNR w KQkq - 0 1";
const STALEMATE: &str = "7k/5Q2/6K1/8/8/8/8/8 b - - 0 1";
const MATE_IN_ONE: &str = "6k1/5ppp/8/8/8/8/8/R6K w - - 0 1";
const MATE_IN_TWO: &str = "7k/8/5K2/8/8/8/8/R7 w - - 0 1";
const ONE_MOVE: &str = "7k/8/5K2/6Q1/8/8/8/8 b - - 0 1";
const HANGING_QUEEN: &str = "4k3/8/8/3q4/4P3/8/8/4K3 w - - 0 1";

fn mv(source: u8, dest: u8) -> ChessMove {
    ChessMove { source, dest, promotion: None }
}

fn position(fen: &str) -> Position {
    Position::from_fen(fen).unwrap()
}

#[test]
fn start_position_depth_one_single_worker() {
    let stop = AtomicBool::new(false);
    let board = position(START);
    let mut launcher = ThreadLauncher::new(1024, 1);
    let (best, score) = launcher.best_move(1, board, Some(&stop)).unwrap();
    assert!(board.legal_moves().contains(&best));
    // After the move White has more moves than the twenty credited to Black.
    let gained = board.make_move_new(best).null_move().unwrap().legal_moves().len() as i16 - 20;
    assert_eq!(score, gained);
    assert_eq!(score, 10);
    assert!(!launcher.was_stopped());
}

#[test]
fn start_position_depth_one_engine() {
    let stop = AtomicBool::new(false);
    let board = position(START);
    let mut engine = Engine::new(1024);
    let (best, score) = engine.best_move(1, board, Some(&stop)).unwrap();
    assert!(board.legal_moves().contains(&best));
    assert_eq!(score, 10);
    assert_eq!(best, mv(12, 20));
}

#[test]
fn mate_in_one_is_found_at_every_depth() {
    let stop = AtomicBool::new(false);
    let board = position(MATE_IN_ONE);
    for depth in 1..5u8 {
        let mut engine = Engine::new(4096);
        let (best, score) = engine.best_move(depth, board, Some(&stop)).unwrap();
        assert_eq!(best, mv(0, 56));
        assert_eq!(score, -MATED);
        assert_eq!(score, 32766);
        assert_eq!(score, -(N_INF + 1));
    }
    let mut launcher = ThreadLauncher::new(4096, 2);
    assert_eq!(launcher.best_move(2, board, Some(&stop)), Some((mv(0, 56), 32766)));
}

#[test]
fn stalemate_returns_no_move() {
    let stop = AtomicBool::new(false);
    let board = position(STALEMATE);
    assert_eq!(evaluate(board), 0);
    for depth in 0..4u8 {
        let mut engine = Engine::new(64);
        assert_eq!(engine.best_move(depth, board, Some(&stop)), None);
        assert_eq!(engine.pvs_root(depth, board, None, Some(&stop)), None);
        let mut launcher = ThreadLauncher::new(64, 3);
        assert_eq!(launcher.best_move(depth, board, Some(&stop)), None);
        assert!(!launcher.was_stopped());
    }
}

#[test]
fn repeated_searches_agree() {
    let stop = AtomicBool::new(false);
    let board = position("r1bqkbnr/pppp1ppp/2n5/4p3/4P3/5N2/PPPP1PPP/RNBQKB1R w KQkq - 2 3");
    let mut first = Engine::new(1 << 12);
    let mut second = Engine::new(1 << 12);
    let a = first.best_move(3, board, Some(&stop));
    let b = second.best_move(3, board, Some(&stop));
    assert!(a.is_some());
    assert_eq!(a, b);
    let mut one = ThreadLauncher::new(1 << 12, 1);
    let mut two = ThreadLauncher::new(1 << 12, 1);
    assert_eq!(one.best_move(3, board, Some(&stop)), two.best_move(3, board, Some(&stop)));
    let mut three = ThreadLauncher::new(1 << 12, 3);
    let mut four = ThreadLauncher::new(1 << 12, 3);
    assert_eq!(three.best_move(3, board, Some(&stop)), four.best_move(3, board, Some(&stop)));
}

#[test]
fn mate_in_two_is_scored_as_mate_once_deep_enough() {
    let stop = AtomicBool::new(false);
    let board = position(MATE_IN_TWO);
    let mut engine = Engine::new(1 << 14);
    let (best, score) = engine.best_move(3, board, Some(&stop)).unwrap();
    assert_eq!(score, 32766);
    let after = board.make_move_new(best);
    let replies = after.legal_moves();
    assert!(!replies.is_empty());
    for reply in replies {
        let then = after.make_move_new(reply);
        let mated = then
            .legal_moves()
            .iter()
            .any(|m| then.make_move_new(*m).legal_moves().is_empty() && then.make_move_new(*m).in_check());
        assert!(mated);
    }
    let mut shallow = Engine::new(1 << 14);
    let (_, early) = shallow.best_move(1, board, Some(&stop)).unwrap();
    assert!(early > 0);
    assert!(early < 32766);
}

#[test]
fn single_legal_move_is_returned_at_every_depth() {
    let stop = AtomicBool::new(false);
    let board = position(ONE_MOVE);
    let moves = board.legal_moves();
    assert_eq!(moves.len(), 1);
    for depth in 1..5u8 {
        let mut engine = Engine::new(256);
        let (best, _) = engine.pvs_root(depth, board, None, Some(&stop)).unwrap();
        assert_eq!(best, moves[0]);
        let mut deepening = Engine::new(256);
        let (best, _) = deepening.best_move(depth, board, Some(&stop)).unwrap();
        assert_eq!(best, moves[0]);
    }
}

#[test]
fn root_search_at_depth_zero_finds_nothing() {
    let stop = AtomicBool::new(false);
    let mut engine = Engine::new(64);
    assert_eq!(engine.pvs_root(0, position(START), None, Some(&stop)), None);
    assert_eq!(engine.best_move(0, position(START), Some(&stop)), None);
    assert!(!engine.is_stopped());
}

#[test]
fn quiescence_is_never_below_the_static_score() {
    for fen in [START, MATE_IN_ONE, MATE_IN_TWO, ONE_MOVE, HANGING_QUEEN, STALEMATE] {
        let board = position(fen);
        let mut engine = Engine::new(64);
        assert!(engine.quiesce(board, N_INF, P_INF) >= evaluate(board));
    }
}

#[test]
fn quiescence_takes_the_hanging_queen() {
    let board = position(HANGING_QUEEN);
    let mut engine = Engine::new(64);
    let standing = evaluate(board);
    let score = engine.quiesce(board, N_INF, P_INF);
    assert!(standing < 0);
    assert!(score > standing + 900);
    let after = board.make_move_new(mv(28, 35));
    assert_eq!(score, -evaluate(after));
    assert_eq!(engine.nodes_searched(), 2);
}

#[test]
fn quiescence_stays_inside_the_window() {
    let board = position(HANGING_QUEEN);
    let mut engine = Engine::new(64);
    assert_eq!(engine.quiesce(board, -50, 50), 50);
    assert_eq!(engine.quiesce(board, 2000, 3000), 2000);
    assert_eq!(engine.quiesce(board, -3000, -2000), -2000);
}

#[test]
fn search_wins_the_hanging_queen() {
    let stop = AtomicBool::new(false);
    let board = position(HANGING_QUEEN);
    let mut engine = Engine::new(1 << 10);
    let (best, score) = engine.best_move(2, board, Some(&stop)).unwrap();
    assert_eq!(best, mv(28, 35));
    assert!(score > 0);
}

#[test]
fn a_set_stop_signal_ends_the_search_without_a_move() {
    let stop = AtomicBool::new(true);
    let board = position(START);
    let mut engine = Engine::new(64);
    assert_eq!(engine.best_move(3, board, Some(&stop)), None);
    assert!(engine.is_stopped());
    let mut other = Engine::new(64);
    assert_eq!(other.pvs_root(2, board, None, Some(&stop)), None);
    assert!(other.is_stopped());
    assert_eq!(other.pvs(2, 2, board, N_INF, P_INF, None, true, Some(&stop)), None);
    let mut launcher = ThreadLauncher::new(64, 2);
    assert_eq!(launcher.best_move(3, board, Some(&stop)), None);
    assert!(launcher.was_stopped());
}

#[test]
fn search_at_depth_zero_is_quiescence() {
    let stop = AtomicBool::new(false);
    let board = position(HANGING_QUEEN);
    let mut engine = Engine::new(64);
    let mut other = Engine::new(64);
    assert_eq!(
        engine.pvs(0, 0, board, N_INF, P_INF, None, true, Some(&stop)),
        Some(other.quiesce(board, N_INF, P_INF))
    );
}

#[test]
fn search_leaves_its_result_in_the_table() {
    let stop = AtomicBool::new(false);
    let board = position(START);
    let mut launcher = ThreadLauncher::new(1 << 12, 1);
    let (_, score) = launcher.best_move(2, board, Some(&stop)).unwrap();
    let (first, _) = launcher.best_move(1, board, Some(&stop)).unwrap();
    let reply = board.make_move_new(first);
    let mut seen = 0;
    for m in board.legal_moves() {
        let child = board.make_move_new(m);
        if let Some(entry) = launcher.memo().get(child.get_hash()) {
            assert!(entry.checksum_is_valid());
            assert_eq!(entry.board_hash, child.get_hash());
            assert_eq!(entry, CacheItem::new(entry.depth, entry.flag, entry.value, child.get_hash()));
            assert!(entry.depth <= 1);
            assert!(entry.flag == Flag::Exact || entry.flag == Flag::LowerBound || entry.flag == Flag::UpperBound);
            seen += 1;
        }
    }
    assert!(seen > 0);
    assert!(score.abs() < 1000);
    assert_ne!(reply, board);
}

#[test]
fn stagger_is_the_number_of_trailing_zero_bits() {
    assert_eq!(stagger(1), 0);
    assert_eq!(stagger(2), 1);
    assert_eq!(stagger(3), 0);
    assert_eq!(stagger(4), 2);
    assert_eq!(stagger(12), 2);
    assert_eq!(stagger(1 << 20), 20);
}

#[test]
fn next_depth_is_one_more_plus_stagger() {
    assert_eq!(next_depth(0, 1), 1);
    assert_eq!(next_depth(0, 2), 2);
    assert_eq!(next_depth(3, 4), 6);
    assert_eq!(next_depth(5, 7), 6);
    assert_eq!(next_depth(254, 1), 255);
    assert_eq!(next_depth(254, 2), 255);
    assert_eq!(next_depth(255, 1), 255);
}

#[test]
fn slot_takes_only_deeper_results() {
    let mut slot = BestMoveSlot::new();
    assert_eq!(slot, BestMoveSlot { best: None, depth: 0 });
    assert!(!slot.publish(None, 3));
    assert_eq!(slot.depth, 0);
    assert!(slot.publish(Some((mv(12, 28), 15)), 2));
    assert_eq!(slot, BestMoveSlot { best: Some((mv(12, 28), 15)), depth: 2 });
    assert!(!slot.publish(Some((mv(11, 27), 99)), 2));
    assert!(!slot.publish(Some((mv(11, 27), 99)), 1));
    assert_eq!(slot.best, Some((mv(12, 28), 15)));
    assert!(slot.publish(Some((mv(11, 27), -4)), 3));
    assert_eq!(slot, BestMoveSlot { best: Some((mv(11, 27), -4)), depth: 3 });
}

#[test]
fn only_unstaggered_workers_take_the_hint() {
    let slot = BestMoveSlot { best: Some((mv(12, 28), 15)), depth: 2 };
    assert_eq!(slot.hint(1), Some(mv(12, 28)));
    assert_eq!(slot.hint(3), Some(mv(12, 28)));
    assert_eq!(slot.hint(2), None);
    assert_eq!(slot.hint(4), None);
    assert_eq!(BestMoveSlot::new().hint(1), None);
}

#[test]
fn launcher_without_workers_finds_nothing() {
    let stop = AtomicBool::new(false);
    let mut launcher = ThreadLauncher::new(64, 0);
    assert_eq!(launcher.best_move(3, position(START), Some(&stop)), None);
}

#[test]
fn several_workers_find_the_mate() {
    let stop = AtomicBool::new(false);
    let board = position(MATE_IN_TWO);
    let mut launcher = ThreadLauncher::new(1 << 14, 4);
    let (_, score) = launcher.best_move(3, board, Some(&stop)).unwrap();
    assert_eq!(score, 32766);
}

#[test]
fn a_new_worker_has_no_killers() {
    let engine = Engine::new(64);
    for ply in [0usize, 5, 11, 12, 300] {
        assert_eq!(engine.killer_row(ply), [None, None, None]);
    }
    assert_eq!(engine.search_id(), 1);
    assert_eq!(engine.nodes_searched(), 0);
}

#[test]
fn a_quiet_cutoff_move_becomes_the_newest_killer() {
    let stop = AtomicBool::new(false);
    let board = position(START);
    let mut engine = Engine::new(1 << 10);
    // One ply below the root of a search of depth three.
    let score = engine.pvs(3, 1, board, -1, 0, None, true, Some(&stop)).unwrap();
    assert!(score >= 0);
    let row = engine.killer_row(2);
    let killer = row[0].unwrap();
    assert!(board.legal_moves().contains(&killer));
    assert_eq!(row[1], None);
    assert_eq!(row[2], None);
    assert_eq!(engine.killer_row(1), [None, None, None]);
    assert_eq!(engine.killer_row(3), [None, None, None]);
}

#[test]
fn killers_are_kept_beyond_the_first_twelve_plies() {
    let stop = AtomicBool::new(false);
    let board = position(START);
    let mut engine = Engine::new(1 << 10);
    engine.pvs(20, 1, board, -1, 0, None, true, Some(&stop)).unwrap();
    let first = engine.killer_row(19)[0].unwrap();
    assert_eq!(engine.killer_row(19), [Some(first), None, None]);
    assert_eq!(engine.killer_row(18), [None, None, None]);
    assert_eq!(engine.killer_row(12), [None, None, None]);
    assert_eq!(engine.killer_row(20), [None, None, None]);
    // A second cutoff at the same ply, by another move, moves the first on.
    let other = position("rnbqkbnr/pppppppp/8/8/8/8/PPPPPPPP/RNBQKBNR b KQkq - 0 1");
    engine.pvs(20, 1, other, -1, 0, None, true, Some(&stop)).unwrap();
    let second = engine.killer_row(19)[0].unwrap();
    assert_ne!(second, first);
    assert_eq!(engine.killer_row(19), [Some(second), Some(first), None]);
}

#[test]
fn a_search_without_a_stop_signal_is_never_stopped() {
    let board = position(MATE_IN_ONE);
    let mut engine = Engine::new(256);
    assert_eq!(engine.best_move(2, board, None), Some((mv(0, 56), 32766)));
    assert!(!engine.is_stopped());
    let mut launcher = ThreadLauncher::new(256, 2);
    assert_eq!(launcher.best_move(2, board, None), Some((mv(0, 56), 32766)));
    assert!(!launcher.was_stopped());
}

#[test]
fn a_launcher_can_search_again_after_a_stop() {
    let board = position(MATE_IN_ONE);
    let stop = AtomicBool::new(true);
    let mut launcher = ThreadLauncher::new(256, 1);
    assert_eq!(launcher.best_move(2, board, Some(&stop)), None);
    assert!(launcher.was_stopped());
    assert_eq!(launcher.best_move(2, board, None), Some((mv(0, 56), 32766)));
    assert!(!launcher.was_stopped());
}

#[test]
fn a_worker_is_made_only_with_a_power_of_two() {
    assert!(Engine::try_new(0).is_none());
    assert!(Engine::try_new(100).is_none());
    let mut engine = Engine::try_new(128).unwrap();
    assert_eq!(engine.best_move(1, position(MATE_IN_ONE), None), Some((mv(0, 56), 32766)));
}

#[test]
fn a_worker_stores_what_it_searched() {
    let board = position(START);
    let mut engine = Engine::new(1 << 12);
    engine.best_move(2, board, None).unwrap();
    let mut stored = 0;
    for m in board.legal_moves() {
        let child = board.make_move_new(m);
        if let Some(entry) = engine.memo().get(child.get_hash()) {
            assert_eq!(entry.board_hash, child.get_hash());
            assert!(entry.depth <= 1);
            stored += 1;
        }
    }
    assert!(stored > 0);
    assert_eq!(engine.memo().size(), 1 << 12);
}

#[test]
fn every_depth_that_finds_a_move_is_reported() {
    let board = position(MATE_IN_TWO);
    let mut engine = Engine::new(1 << 12);
    let mut reports: Vec<DepthInfo> = Vec::new();
    let found = engine.best_move_reported(3, board, None, &mut reports).unwrap();
    assert_eq!(reports.len(), 3);
    assert_eq!(reports[0].depth, 1);
    assert_eq!(reports[1].depth, 2);
    assert_eq!(reports[2].depth, 3);
    assert_eq!(reports[2].score, found.1);
    assert_eq!(reports[2].score, 32766);
    for report in &reports {
        assert!(report.nodes > 0);
    }
    assert!(reports[0].nodes < reports[2].nodes);
    assert_eq!(engine.nodes_searched(), 0);
    let mut again = Engine::new(1 << 12);
    let mut second: Vec<DepthInfo> = Vec::new();
    again.best_move_reported(3, board, None, &mut second);
    assert_eq!(second, reports);
}

#[test]
fn a_finished_game_gives_no_reports() {
    let mut engine = Engine::new(64);
    let mut reports: Vec<DepthInfo> = vec![DepthInfo { depth: 9, nodes: 1, score: 2 }];
    assert_eq!(engine.best_move_reported(3, position(STALEMATE), None, &mut reports), None);
    assert_eq!(reports, vec![DepthInfo { depth: 9, nodes: 1, score: 2 }]);
}

const QUEEN_UP: &str = "4k3/8/8/8/8/8/8/3QK3 w - - 0 1";

fn worker_with_entry(board: Position, depth: u8, flag: Flag, value: i16) -> Engine {
    let mut table = crabfish::transposition::TTable::new(64);
    table.set(CacheItem::new(depth, flag, value, board.get_hash()));
    Engine::with_table(1, table)
}

#[test]
fn reverse_futility_returns_the_static_score_less_the_margin() {
    let board = position(QUEEN_UP);
    let standing = evaluate(board);
    assert!(standing > 900);
    let mut engine = Engine::new(64);
    assert_eq!(engine.pvs(1, 1, board, 0, 100, None, true, None), Some(standing - 120));
    let mut deeper = Engine::new(64);
    assert_eq!(deeper.pvs(2, 2, board, 0, 100, None, true, None), Some(standing - 240));
    // Nothing is stored for a node that pruning settles.
    assert_eq!(deeper.memo().get(board.get_hash()), None);
    assert_eq!(deeper.nodes_searched(), 1);
}

#[test]
fn an_exact_entry_settles_the_node() {
    let board = position(START);
    let mut engine = worker_with_entry(board, 5, Flag::Exact, 77);
    assert_eq!(engine.pvs(3, 3, board, -10, 10, None, true, None), Some(77));
    assert_eq!(engine.nodes_searched(), 0);
    assert_eq!(engine.pvs(5, 5, board, N_INF, P_INF, None, true, None), Some(77));
}

#[test]
fn a_lower_bound_at_or_above_beta_settles_the_node() {
    let board = position(START);
    let mut engine = worker_with_entry(board, 4, Flag::LowerBound, 500);
    assert_eq!(engine.pvs(3, 3, board, 0, 100, None, true, None), Some(500));
    assert_eq!(engine.pvs(3, 3, board, 0, 500, None, true, None), Some(500));
    assert_eq!(engine.nodes_searched(), 0);
}

#[test]
fn an_upper_bound_at_or_below_alpha_settles_the_node() {
    let board = position(START);
    let mut engine = worker_with_entry(board, 4, Flag::UpperBound, -500);
    assert_eq!(engine.pvs(3, 3, board, 0, 100, None, true, None), Some(-500));
    assert_eq!(engine.pvs(3, 3, board, -500, 100, None, true, None), Some(-500));
    assert_eq!(engine.nodes_searched(), 0);
}

#[test]
fn a_bound_inside_the_window_only_narrows_it() {
    let board = position(START);
    // The true score at depth zero is the static score, 0.
    let mut fresh = Engine::new(64);
    assert_eq!(fresh.pvs(0, 0, board, -50, 50, None, true, None), Some(0));
    let mut raised = worker_with_entry(board, 1, Flag::LowerBound, 20);
    assert_eq!(raised.pvs(0, 0, board, -50, 50, None, true, None), Some(20));
    let mut lowered = worker_with_entry(board, 1, Flag::UpperBound, -20);
    assert_eq!(lowered.pvs(0, 0, board, -50, 50, None, true, None), Some(-20));
}

#[test]
fn a_shallow_entry_is_passed_over() {
    let board = position(START);
    let mut engine = worker_with_entry(board, 2, Flag::Exact, 77);
    let mut fresh = Engine::new(64);
    let found = engine.pvs(3, 3, board, -100, 100, None, true, None);
    assert_eq!(found, fresh.pvs(3, 3, board, -100, 100, None, true, None));
    assert_ne!(found, Some(77));
}

#[test]
fn an_entry_with_a_score_out_of_range_is_passed_over() {
    let board = position(START);
    let mut low = worker_with_entry(board, 9, Flag::Exact, i16::MIN);
    let mut edge = worker_with_entry(board, 9, Flag::Exact, N_INF);
    let mut high = worker_with_entry(board, 9, Flag::Exact, P_INF);
    let mut fresh = Engine::new(64);
    let found = fresh.pvs(1, 1, board, -100, 100, None, true, None);
    assert_eq!(low.pvs(1, 1, board, -100, 100, None, true, None), found);
    assert_eq!(edge.pvs(1, 1, board, -100, 100, None, true, None), found);
    assert_eq!(high.pvs(1, 1, board, -100, 100, None, true, None), found);
    let mut mate = worker_with_entry(board, 9, Flag::Exact, MATED);
    assert_eq!(mate.pvs(1, 1, board, -100, 100, None, true, None), Some(MATED));
}

#[test]
fn a_searched_node_is_stored_with_its_bound() {
    let board = position(START);
    let mut engine = Engine::new(64);
    let exact = engine.pvs(1, 1, board, -200, 200, None, true, None).unwrap();
    assert_eq!(
        engine.memo().get(board.get_hash()),
        Some(CacheItem::new(1, Flag::Exact, exact, board.get_hash()))
    );
    assert_eq!(exact, 10);
    let mut low = Engine::new(64);
    let failed_high = low.pvs(1, 1, board, -200, 5, None, true, None).unwrap();
    assert!(failed_high >= 5);
    assert_eq!(
        low.memo().get(board.get_hash()),
        Some(CacheItem::new(1, Flag::LowerBound, failed_high, board.get_hash()))
    );
    let mut high = Engine::new(64);
    let failed_low = high.pvs(1, 1, board, 50, 200, None, true, None).unwrap();
    assert_eq!(failed_low, 50);
    assert_eq!(
        high.memo().get(board.get_hash()),
        Some(CacheItem::new(1, Flag::UpperBound, 50, board.get_hash()))
    );
}

#[test]
fn a_stopped_worker_leaves_everything_as_it_was() {
    let set = AtomicBool::new(true);
    let board = position(START);
    let mut engine = Engine::new(1 << 10);
    engine.pvs(20, 1, board, -1, 0, None, true, None).unwrap();
    let entry = engine.memo().get(board.get_hash());
    assert!(entry.is_some());
    let killers = engine.killer_row(19);
    let nodes = engine.nodes_searched();
    assert!(nodes > 0);
    // The signal is seen by the root search, which polls at once on a fresh count.
    let mut reports: Vec<DepthInfo> = Vec::new();
    assert_eq!(engine.best_move_reported(3, board, Some(&set), &mut reports), None);
    assert!(engine.is_stopped());
    assert!(reports.is_empty());
    // From here on the worker does nothing, with or without a signal.
    assert_eq!(engine.pvs(3, 3, board, -100, 100, None, true, None), None);
    assert_eq!(engine.pvs_root(3, board, None, None), None);
    assert_eq!(engine.best_move(3, board, None), None);
    assert_eq!(engine.best_move_reported(3, board, None, &mut reports), None);
    assert!(reports.is_empty());
    assert_eq!(engine.memo().get(board.get_hash()), entry);
    assert_eq!(engine.killer_row(19), killers);
    assert_eq!(engine.nodes_searched(), nodes);
}

#[test]
fn a_new_worker_has_an_empty_table() {
    let engine = Engine::new(64);
    for hash in [0u64, 1, 63, 64, u64::MAX] {
        assert_eq!(engine.memo().get(hash), None);
    }
    let launcher = ThreadLauncher::new(64, 2);
    for hash in [0u64, 1, 63, 64, u64::MAX] {
        assert_eq!(launcher.memo().get(hash), None);
    }
}

#[test]
fn the_first_mating_move_is_returned_at_depth_one() {
    // Two moves mate at once: Ra8 and Rb8 are both on the list; the first listed wins.
    let board = position("6k1/5ppp/8/8/8/8/8/RR5K w - - 0 1");
    let moves = board.legal_moves();
    let first = *moves
        .iter()
        .find(|m| {
            let next = board.make_move_new(**m);
            next.in_check() && next.count_moves() == 0
        })
        .unwrap();
    let mut engine = Engine::new(256);
    assert_eq!(engine.pvs_root(1, board, None, None), Some((first, 32766)));
    let mut launcher = ThreadLauncher::new(256, 1);
    assert_eq!(launcher.best_move(1, board, None), Some((first, 32766)));
}

#[test]
fn deepening_step_by_step_is_iterative_deepening() {
    let board = position(MATE_IN_TWO);
    let mut whole = Engine::new(1 << 12);
    let mut all: Vec<DepthInfo> = Vec::new();
    let found = whole.best_move_reported(3, board, None, &mut all);
    let mut stepped = Engine::new(1 << 12);
    let mut reports: Vec<DepthInfo> = Vec::new();
    let mut best = None;
    for depth in 1..4u8 {
        best = stepped.deepen(depth, board, best, None, &mut reports);
        assert_eq!(reports.len(), depth as usize);
        assert_eq!(reports[depth as usize - 1].depth, depth);
        assert_eq!(reports[depth as usize - 1].score, best.unwrap().1);
        assert_eq!(stepped.nodes_searched(), 0);
    }
    assert_eq!(best, found);
    assert_eq!(reports, all);
}

#[test]
fn a_step_that_is_stopped_keeps_the_best_move() {
    let set = AtomicBool::new(true);
    let board = position(START);
    let mut engine = Engine::new(64);
    let mut reports: Vec<DepthInfo> = Vec::new();
    let kept = Some((mv(12, 28), 33));
    assert_eq!(engine.deepen(2, board, kept, Some(&set), &mut reports), kept);
    assert!(engine.is_stopped());
    assert!(reports.is_empty());
    assert_eq!(engine.deepen(2, board, None, None, &mut reports), None);
    let mut over = Engine::new(64);
    assert_eq!(over.deepen(2, position(STALEMATE), kept, None, &mut reports), kept);
    assert!(reports.is_empty());
    assert!(!over.is_stopped());
}
