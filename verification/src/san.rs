//! Moves in standard algebraic notation: reading the notation, and finding
//! the legal move that it names.

use crate::position::{ChessMove, Piece, Position};
use crate::text::{rest_is, same_text};
use vstd::prelude::*;
use vstd::string::StrSliceExecFns;

verus! {

/// What a move in algebraic notation says.
#[derive(Clone, Copy, Debug, PartialEq, Eq, Structural)]
pub enum San {
    /// Castling, on the king's side or the queen's.
    Castle { king_side: bool },
    /// Any other move.
    Step(SanMove),
}

/// What the notation of a move other than castling says.
#[derive(Clone, Copy, Debug, PartialEq, Eq, Structural)]
pub struct SanMove {
    /// The kind of piece that moves.
    pub piece: Piece,
    /// The file it comes from, counted from `a` = 0, where the notation
    /// names it.
    pub source_file: Option<u8>,
    /// The rank it comes from, counted from the first = 0, where the notation
    /// names it.
    pub source_rank: Option<u8>,
    /// Whether the notation marks a capture.
    pub takes: bool,
    /// The square it goes to.
    pub dest: u8,
    /// The piece a pawn promotes to.
    pub promotion: Option<Piece>,
    /// Whether the notation ends in ` e.p.`.
    pub en_passant: bool,
}

/// The character at index `at`, if the text is that long.
pub open spec fn char_at(text: Seq<char>, at: int) -> Option<char> {
    if 0 <= at < text.len() {
        Some(text[at])
    } else {
        None
    }
}

/// The piece that a capital letter stands for.
pub open spec fn piece_of_letter(c: Option<char>) -> Option<Piece> {
    if c == Some('N') {
        Some(Piece::Knight)
    } else if c == Some('B') {
        Some(Piece::Bishop)
    } else if c == Some('R') {
        Some(Piece::Rook)
    } else if c == Some('Q') {
        Some(Piece::Queen)
    } else if c == Some('K') {
        Some(Piece::King)
    } else {
        None
    }
}

/// The file that a letter from `a` to `h` stands for.
pub open spec fn file_of(c: Option<char>) -> Option<u8> {
    match c {
        Some(letter) => if 'a' <= letter && letter <= 'h' {
            Some((letter as u32 - 'a' as u32) as u8)
        } else {
            None
        },
        None => None,
    }
}

/// The rank that a digit from `1` to `8` stands for.
pub open spec fn rank_of(c: Option<char>) -> Option<u8> {
    match c {
        Some(digit) => if '1' <= digit && digit <= '8' {
            Some((digit as u32 - '1' as u32) as u8)
        } else {
            None
        },
        None => None,
    }
}

/// The square on a file and a rank.
pub open spec fn square_on(file: u8, rank: u8) -> u8 {
    (rank * 8 + file) as u8
}

/// How many characters an optional part took.
pub open spec fn width<T>(part: Option<T>) -> int {
    if part is Some {
        1
    } else {
        0
    }
}

/// What a text in algebraic notation says, read from left to right: `O-O` or
/// `O-O-O`; else a piece letter (a pawn without one), a file and a rank of
/// departure, `x`, the square of arrival, a promotion piece, `+` or `#`, and
/// ` e.p.`, each of them optional but the square of arrival. Where no square
/// follows the first file and rank, these are the square of arrival. There is
/// no reading without a square of arrival; what follows the parts read is
/// passed over.
pub open spec fn san_of(text: Seq<char>) -> Option<San> {
    if text == "O-O"@ {
        Some(San::Castle { king_side: true })
    } else if text == "O-O-O"@ {
        Some(San::Castle { king_side: false })
    } else {
        let piece = piece_of_letter(char_at(text, 0));
        let at_file = width(piece);
        let file = file_of(char_at(text, at_file));
        let at_rank = at_file + width(file);
        let rank = rank_of(char_at(text, at_rank));
        let at_takes = at_rank + width(rank);
        let takes = char_at(text, at_takes) == Some('x');
        let at_dest = at_takes + if takes {
            1int
        } else {
            0int
        };
        let dest_file = file_of(char_at(text, at_dest));
        let dest_rank = rank_of(char_at(text, at_dest + 1));
        let named = dest_file is Some && dest_rank is Some;
        if !named && !(file is Some && rank is Some) {
            None
        } else {
            let at_promotion = at_dest + if named {
                2int
            } else {
                0int
            };
            let promotion = promotion_of_letter(char_at(text, at_promotion));
            let at_check = at_promotion + width(promotion);
            let checks = char_at(text, at_check) == Some('+') || char_at(text, at_check) == Some(
                '#',
            );
            let at_rest = at_check + if checks {
                1int
            } else {
                0int
            };
            Some(
                San::Step(
                    SanMove {
                        piece: match piece {
                            Some(kind) => kind,
                            None => Piece::Pawn,
                        },
                        source_file: if named {
                            file
                        } else {
                            None
                        },
                        source_rank: if named {
                            rank
                        } else {
                            None
                        },
                        takes,
                        dest: if named {
                            square_on(dest_file.unwrap(), dest_rank.unwrap())
                        } else {
                            square_on(file.unwrap(), rank.unwrap())
                        },
                        promotion,
                        en_passant: at_rest <= text.len() && text.subrange(
                            at_rest,
                            text.len() as int,
                        ) == " e.p."@,
                    },
                ),
            )
        }
    }
}

/// The piece that a promotion letter stands for.
pub open spec fn promotion_of_letter(c: Option<char>) -> Option<Piece> {
    if c == Some('K') {
        None
    } else {
        piece_of_letter(c)
    }
}

/// Whether the legal move `m` of `pos` is one that the notation can mean.
/// For castling: a king that moves two files along its rank, to the right on
/// the king's side. Else the piece, the square of arrival and the promotion
/// are as the notation says, the file and rank of departure where it names
/// them; a move not marked as a capture goes to an empty square, and one
/// marked as a capture, but not as en passant, to an occupied one.
pub open spec fn san_matches(pos: Position, san: San, m: ChessMove) -> bool {
    match san {
        San::Castle { king_side } => pos.occupant(m.source) == Some(Piece::King) && if king_side {
            m.dest == m.source + 2
        } else {
            m.dest + 2 == m.source
        },
        San::Step(step) => {
            &&& pos.occupant(m.source) == Some(step.piece)
            &&& (step.source_rank is Some ==> m.source / 8 == step.source_rank.unwrap())
            &&& (step.source_file is Some ==> m.source % 8 == step.source_file.unwrap())
            &&& m.dest == step.dest
            &&& m.promotion == step.promotion
            &&& (!step.takes ==> pos.occupant(m.dest) is None)
            &&& (step.takes && !step.en_passant ==> pos.occupant(m.dest) is Some)
        },
    }
}

/// Those of the first `upto` moves that the notation can mean, in their order.
pub open spec fn candidates(pos: Position, san: San, moves: Seq<ChessMove>, upto: int) -> Seq<
    ChessMove,
>
    decreases upto,
{
    if upto <= 0 {
        Seq::<ChessMove>::empty()
    } else if san_matches(pos, san, moves[upto - 1]) {
        candidates(pos, san, moves, upto - 1).push(moves[upto - 1])
    } else {
        candidates(pos, san, moves, upto - 1)
    }
}

/// The move that a text names in `pos`: the one legal move that its reading
/// can mean. There is none where the text has no reading, where no legal
/// move fits, and where two do.
pub open spec fn move_named(pos: Position, text: Seq<char>) -> Option<ChessMove> {
    match san_of(text) {
        Some(san) => {
            let fitting = candidates(pos, san, pos.moves(), pos.moves().len() as int);
            if fitting.len() == 1 {
                Some(fitting[0])
            } else {
                None
            }
        },
        None => None,
    }
}

fn read_char(text: &str, len: usize, at: usize) -> (c: Option<char>)
    requires
        len == text@.len(),
    ensures
        c == char_at(text@, at as int),
{
    if at < len {
        Some(text.get_char(at))
    } else {
        None
    }
}

fn read_piece(c: Option<char>) -> (piece: Option<Piece>)
    ensures
        piece == piece_of_letter(c),
{
    match c {
        Some(letter) => {
            if letter == 'N' {
                Some(Piece::Knight)
            } else if letter == 'B' {
                Some(Piece::Bishop)
            } else if letter == 'R' {
                Some(Piece::Rook)
            } else if letter == 'Q' {
                Some(Piece::Queen)
            } else if letter == 'K' {
                Some(Piece::King)
            } else {
                None
            }
        },
        None => None,
    }
}

fn read_file(c: Option<char>) -> (file: Option<u8>)
    ensures
        file == file_of(c),
        file is Some ==> file.unwrap() < 8,
{
    match c {
        Some(letter) => {
            if 'a' <= letter && letter <= 'h' {
                Some((letter as u32 - 'a' as u32) as u8)
            } else {
                None
            }
        },
        None => None,
    }
}

fn read_rank(c: Option<char>) -> (rank: Option<u8>)
    ensures
        rank == rank_of(c),
        rank is Some ==> rank.unwrap() < 8,
{
    match c {
        Some(digit) => {
            if '1' <= digit && digit <= '8' {
                Some((digit as u32 - '1' as u32) as u8)
            } else {
                None
            }
        },
        None => None,
    }
}

/// Reads a move in algebraic notation.
pub fn parse_san(text: &str) -> (san: Option<San>)
    ensures
        san == san_of(text@),
        san is Some && san.unwrap() is Step ==> san.unwrap()->Step_0.dest < 64,
{
    if same_text(text, "O-O") {
        return Some(San::Castle { king_side: true });
    }
    if same_text(text, "O-O-O") {
        return Some(San::Castle { king_side: false });
    }
    let len = text.unicode_len();
    let mut at: usize = 0;
    let piece = read_piece(read_char(text, len, at));
    if piece.is_some() {
        at = at + 1;
    }
    let file = read_file(read_char(text, len, at));
    if file.is_some() {
        at = at + 1;
    }
    let rank = read_rank(read_char(text, len, at));
    if rank.is_some() {
        at = at + 1;
    }
    let takes = read_char(text, len, at) == Some('x');
    if takes {
        at = at + 1;
    }
    let dest_file = read_file(read_char(text, len, at));
    let dest_rank = read_rank(read_char(text, len, at + 1));
    let mut source_file = file;
    let mut source_rank = rank;
    let dest: u8 = match (dest_file, dest_rank) {
        (Some(f), Some(r)) => {
            at = at + 2;
            r * 8 + f
        },
        _ => {
            match (file, rank) {
                (Some(f), Some(r)) => {
                    source_file = None;
                    source_rank = None;
                    r * 8 + f
                },
                _ => {
                    return None;
                },
            }
        },
    };
    let promotion = match read_char(text, len, at) {
        Some(letter) => if letter == 'K' {
            None
        } else {
            read_piece(Some(letter))
        },
        None => None,
    };
    if promotion.is_some() {
        at = at + 1;
    }
    let mark = read_char(text, len, at);
    if mark == Some('+') || mark == Some('#') {
        at = at + 1;
    }
    let en_passant = at <= len && rest_is(text, at, " e.p.");
    Some(
        San::Step(
            SanMove {
                piece: match piece {
                    Some(kind) => kind,
                    None => Piece::Pawn,
                },
                source_file,
                source_rank,
                takes,
                dest,
                promotion,
                en_passant,
            },
        ),
    )
}

fn fits(board: &Position, san: San, m: ChessMove) -> (fit: bool)
    ensures
        fit == san_matches(*board, san, m),
{
    match san {
        San::Castle { king_side } => {
            board.piece_on(m.source) == Some(Piece::King) && if king_side {
                m.source <= 253 && m.dest == m.source + 2
            } else {
                m.dest <= 253 && m.dest + 2 == m.source
            }
        },
        San::Step(step) => {
            let arrival = board.piece_on(m.dest);
            board.piece_on(m.source) == Some(step.piece) && (match step.source_rank {
                Some(rank) => m.source / 8 == rank,
                None => true,
            }) && (match step.source_file {
                Some(file) => m.source % 8 == file,
                None => true,
            }) && m.dest == step.dest && m.promotion == step.promotion && (step.takes
                || arrival.is_none()) && (!step.takes || step.en_passant || arrival.is_some())
        },
    }
}

/// Finds the legal move that a text in algebraic notation names.
pub fn from_san(board: &Position, move_text: &str) -> (found: Option<ChessMove>)
    ensures
        found == move_named(*board, move_text@),
        found is Some ==> board.moves().contains(found.unwrap()),
{
    let san = match parse_san(move_text) {
        Some(san) => san,
        None => {
            return None;
        },
    };
    let moves = board.legal_moves();
    let mut found_move: Option<ChessMove> = None;
    let mut many = false;
    let mut i: usize = 0;
    while i < moves.len()
        invariant
            i <= moves@.len(),
            moves@ == board.moves(),
            !many && found_move is None ==> candidates(*board, san, moves@, i as int).len() == 0,
            !many && found_move is Some ==> candidates(*board, san, moves@, i as int) == seq![
                found_move.unwrap(),
            ],
            many ==> found_move is Some && candidates(*board, san, moves@, i as int).len() >= 2,
            found_move is Some ==> board.moves().contains(found_move.unwrap()),
        decreases moves@.len() - i,
    {
        let m = moves[i];
        if fits(board, san, m) {
            if found_move.is_some() {
                many = true;
            } else {
                found_move = Some(m);
                assert(candidates(*board, san, moves@, i + 1) =~= seq![m]);
            }
        }
        i = i + 1;
    }
    if many {
        None
    } else {
        found_move
    }
}

} // verus!
