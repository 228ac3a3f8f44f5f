use crabfish::eval::{evaluate, get_score, is_endgame};
use crabfish::helpers::{color_to_num, game_over, N_INF, P_INF};
use crabfish::move_sort::{sort_moves, sort_qs};
use crabfish::position::{BoardStatus, ChessMove, Color, FenError, Piece, Position};

const START: &str = "rnbqkbnr/pppppppp/8/8/8/8/PPPPPPPP/RNBQKBNR w KQkq - 0 1";
const STALEMATE: &str = "7k/5Q2/6K1/8/8/8/8/8 b - - 0 1";
const CHECKMATE: &str = "R5k1/5ppp/8/8/8/8/8/7K b - - 0 1";

fn mv(source: u8, dest: u8) -> ChessMove {
    ChessMove { source, dest, promotion: None }
}

#[test]
fn start_position_has_twenty_moves() {
    let pos = Position::from_fen(START).unwrap();
    assert_eq!(pos.legal_moves().len(), 20);
    assert_eq!(pos.capture_moves().len(), 0);
    assert_eq!(pos.status(), BoardStatus::Ongoing);
    assert_eq!(pos.side_to_move(), Color::White);
    assert!(!pos.in_check());
    assert!(!game_over(pos));
}

#[test]
fn bad_fen_is_rejected() {
    assert_eq!(Position::from_fen("not a position"), Err(FenError::Invalid));
    assert_eq!(Position::from_fen(""), Err(FenError::Invalid));
    assert_eq!(Position::from_fen("8/8/8/8/8/8/8/8 w - - 0 1"), Err(FenError::Invalid));
}

#[test]
fn pieces_are_counted_and_found() {
    let pos = Position::from_fen(START).unwrap();
    assert_eq!(pos.count_piece(Piece::Pawn, Color::White), 8);
    assert_eq!(pos.count_piece(Piece::Knight, Color::Black), 2);
    assert_eq!(pos.count_piece(Piece::Queen, Color::White), 1);
    assert_eq!(pos.count_piece(Piece::King, Color::Black), 1);
    assert_eq!(pos.count_men(), 32);
    assert_eq!(pos.piece_on(0), Some(Piece::Rook));
    assert_eq!(pos.piece_on(4), Some(Piece::King));
    assert_eq!(pos.piece_on(12), Some(Piece::Pawn));
    assert_eq!(pos.piece_on(59), Some(Piece::Queen));
    assert_eq!(pos.piece_on(27), None);
    assert_eq!(pos.piece_on(64), None);
    assert_eq!(pos.piece_on(255), None);
}

#[test]
fn a_move_changes_the_position() {
    let pos = Position::from_fen(START).unwrap();
    let e4 = mv(12, 28);
    assert!(pos.legal_moves().contains(&e4));
    let next = pos.make_move_new(e4);
    assert_ne!(next, pos);
    assert_eq!(next.side_to_move(), Color::Black);
    assert_eq!(next.piece_on(28), Some(Piece::Pawn));
    assert_eq!(next.piece_on(12), None);
    assert_ne!(next.get_hash(), pos.get_hash());
    assert_eq!(
        next,
        Position::from_fen("rnbqkbnr/pppppppp/8/8/4P3/8/PPPP1PPP/RNBQKBNR b KQkq - 0 1").unwrap()
    );
    assert_eq!(pos.play(e4), Some(next));
}

#[test]
fn an_illegal_move_is_not_played() {
    let pos = Position::from_fen(START).unwrap();
    assert_eq!(pos.play(mv(12, 36)), None);
    assert_eq!(pos.play(mv(200, 3)), None);
    assert_eq!(pos.play(ChessMove { source: 12, dest: 28, promotion: Some(Piece::Queen) }), None);
}

#[test]
fn promotions_carry_their_piece() {
    let pos = Position::from_fen("8/P6k/8/8/8/8/8/K7 w - - 0 1").unwrap();
    let moves = pos.legal_moves();
    let queen = ChessMove { source: 48, dest: 56, promotion: Some(Piece::Queen) };
    let knight = ChessMove { source: 48, dest: 56, promotion: Some(Piece::Knight) };
    assert!(moves.contains(&queen));
    assert!(moves.contains(&knight));
    let next = pos.make_move_new(knight);
    assert_eq!(next.piece_on(56), Some(Piece::Knight));
    assert_eq!(next.count_piece(Piece::Pawn, Color::White), 0);
}

#[test]
fn captures_land_on_enemy_men() {
    let pos = Position::from_fen("4k3/8/8/3p4/4P3/8/8/4K3 w - - 0 1").unwrap();
    let captures = pos.capture_moves();
    assert_eq!(captures, vec![mv(28, 35)]);
    let next = pos.make_move_new(captures[0]);
    assert_eq!(next.count_men(), pos.count_men() - 1);
}

#[test]
fn passing_hands_the_move_over() {
    let pos = Position::from_fen(START).unwrap();
    let passed = pos.null_move().unwrap();
    assert_eq!(passed.side_to_move(), Color::Black);
    assert_eq!(passed.count_men(), 32);
    let checked = Position::from_fen("4k3/8/8/8/8/8/4r3/4K3 w - - 0 1").unwrap();
    assert!(checked.in_check());
    assert_eq!(checked.null_move(), None);
}

#[test]
fn hash_tells_positions_apart_and_equal_positions_agree() {
    let a = Position::from_fen(START).unwrap();
    let b = Position::from_fen(START).unwrap();
    assert_eq!(a.get_hash(), b.get_hash());
    let c = a.make_move_new(mv(12, 28));
    let d = a.make_move_new(mv(11, 27));
    assert_ne!(c.get_hash(), d.get_hash());
}

#[test]
fn finished_games_are_recognised() {
    let stale = Position::from_fen(STALEMATE).unwrap();
    assert_eq!(stale.status(), BoardStatus::Stalemate);
    assert!(game_over(stale));
    assert_eq!(stale.legal_moves().len(), 0);
    let mate = Position::from_fen(CHECKMATE).unwrap();
    assert_eq!(mate.status(), BoardStatus::Checkmate);
    assert!(game_over(mate));
    assert!(mate.in_check());
}

#[test]
fn piece_values() {
    assert_eq!(get_score(Piece::Pawn), 100);
    assert_eq!(get_score(Piece::Knight), 325);
    assert_eq!(get_score(Piece::Bishop), 335);
    assert_eq!(get_score(Piece::Rook), 500);
    assert_eq!(get_score(Piece::Queen), 975);
    assert_eq!(get_score(Piece::King), 1500);
}

#[test]
fn signs_and_limits() {
    assert_eq!(color_to_num(Color::White), 1);
    assert_eq!(color_to_num(Color::Black), -1);
    assert_eq!(N_INF, i16::MIN + 1);
    assert_eq!(P_INF, i16::MAX);
    assert_eq!(-N_INF, P_INF);
}

#[test]
fn start_position_is_level() {
    let pos = Position::from_fen(START).unwrap();
    assert_eq!(evaluate(pos), 0);
    assert!(!is_endgame(pos));
}

#[test]
fn terminal_positions_have_fixed_scores() {
    assert_eq!(evaluate(Position::from_fen(STALEMATE).unwrap()), 0);
    assert_eq!(evaluate(Position::from_fen(CHECKMATE).unwrap()), N_INF + 1);
    assert_eq!(evaluate(Position::from_fen(CHECKMATE).unwrap()), -32766);
}

#[test]
fn evaluation_adds_material_pairs_and_mobility() {
    // White: king and queen; Black: king and rook.
    let pos = Position::from_fen("4k2r/8/8/8/8/8/8/3QK3 w - - 0 1").unwrap();
    let white_moves = pos.legal_moves().len() as i16;
    let black_moves = pos.null_move().unwrap().legal_moves().len() as i16;
    let expected = (975 - 500) + (0 - (-16)) + (white_moves - black_moves);
    assert_eq!(evaluate(pos), expected);
    assert!(is_endgame(pos));
}

#[test]
fn evaluation_is_negated_for_black() {
    let white = Position::from_fen("4k3/8/8/8/8/8/PPPP4/4K3 w - - 0 1").unwrap();
    let black = Position::from_fen("4k3/8/8/8/8/8/PPPP4/4K3 b - - 0 1").unwrap();
    let white_moves = white.legal_moves().len() as i16;
    let black_moves = black.legal_moves().len() as i16;
    assert_eq!(evaluate(white), 400 + white_moves - black_moves);
    assert_eq!(evaluate(black), -(400 + white_moves - black_moves));
}

#[test]
fn evaluation_of_the_mirror_with_the_move_kept_is_negated() {
    let pos = Position::from_fen("4k3/8/8/8/8/8/PPPP4/R3K3 w - - 0 1").unwrap();
    let mirror = Position::from_fen("r3k3/pppp4/8/8/8/8/8/4K3 w - - 0 1").unwrap();
    let own = pos.legal_moves().len() as i16;
    let other = pos.null_move().unwrap().legal_moves().len() as i16;
    let mirror_own = mirror.legal_moves().len() as i16;
    let mirror_other = mirror.null_move().unwrap().legal_moves().len() as i16;
    assert_eq!(evaluate(pos), 900 - 16 + own - other);
    assert_eq!(evaluate(mirror), -(900 - 16) + mirror_own - mirror_other);
    assert_eq!(evaluate(pos) - (own - other), -(evaluate(mirror) - (mirror_own - mirror_other)));
}

#[test]
fn evaluation_of_the_full_mirror_is_the_same_for_the_mover() {
    let pos = Position::from_fen("4k3/8/8/8/8/8/PPPP4/R3K3 w - - 0 1").unwrap();
    let mirror = Position::from_fen("r3k3/pppp4/8/8/8/8/8/4K3 b - - 0 1").unwrap();
    assert_eq!(evaluate(pos), evaluate(mirror));
}

#[test]
fn unknown_mobility_counts_twenty() {
    // White is in check and cannot pass, so Black's mobility counts as 20.
    let pos = Position::from_fen("4k3/8/8/8/8/8/4r3/4K3 w - - 0 1").unwrap();
    let own = pos.legal_moves().len() as i16;
    assert_eq!(evaluate(pos), -500 + 16 + own - 20);
}

#[test]
fn captures_are_ordered_by_victim_then_attacker() {
    // White can take a queen with a pawn or a rook, and a pawn with a rook.
    let pos = Position::from_fen("4k3/8/8/3q3p/4P3/8/8/3RK2R w - - 0 1").unwrap();
    let mut moves = pos.legal_moves();
    sort_moves(&pos, &mut moves, &[None, None, None]);
    assert_eq!(moves[0], mv(28, 35));
    assert_eq!(moves[1], mv(3, 35));
    assert_eq!(moves[2], mv(7, 39));
    assert_eq!(moves.len(), pos.legal_moves().len());
    for m in pos.legal_moves() {
        assert!(moves.contains(&m));
    }
    let mut captures = pos.capture_moves();
    sort_qs(&pos, &mut captures);
    assert_eq!(captures, vec![mv(28, 35), mv(3, 35), mv(7, 39)]);
}

#[test]
fn killers_come_before_other_quiet_moves_by_recency() {
    let pos = Position::from_fen(START).unwrap();
    let first = mv(6, 21);
    let second = mv(12, 28);
    let third = mv(8, 16);
    let mut moves = pos.legal_moves();
    sort_moves(&pos, &mut moves, &[Some(first), Some(second), Some(third)]);
    assert_eq!(moves[0], first);
    assert_eq!(moves[1], second);
    assert_eq!(moves[2], third);
    assert_eq!(moves.len(), 20);
}

#[test]
fn ordering_keeps_the_order_of_equal_moves() {
    let pos = Position::from_fen(START).unwrap();
    let unsorted = pos.legal_moves();
    let mut moves = pos.legal_moves();
    sort_moves(&pos, &mut moves, &[None, None, None]);
    assert_eq!(moves, unsorted);
    let killer = unsorted[7];
    sort_moves(&pos, &mut moves, &[None, Some(killer), None]);
    assert_eq!(moves[0], killer);
    let mut rest = unsorted.clone();
    rest.remove(7);
    assert_eq!(&moves[1..], &rest[..]);
}

#[test]
fn moves_are_counted_as_they_are_listed() {
    for fen in [
        START,
        STALEMATE,
        CHECKMATE,
        "r3k2r/8/8/3p4/4P3/8/8/R3K2R w KQkq - 0 1",
        "8/P6k/8/8/8/8/8/K7 w - - 0 1",
        "rnbqkbnr/pppp2pp/8/4pP2/8/8/PPPP1PPP/RNBQKBNR w KQkq e6 0 3",
    ] {
        let pos = Position::from_fen(fen).unwrap();
        assert_eq!(pos.count_moves(), pos.legal_moves().len());
    }
    assert_eq!(Position::from_fen(START).unwrap().count_moves(), 20);
    assert_eq!(Position::from_fen(STALEMATE).unwrap().count_moves(), 0);
}
