//! Chess positions and moves. The rules of chess (which moves are legal,
//! what a move does to a position, the position's hash) come from the `chess`
//! crate; this module gives what it answers a name and hands it on as plain
//! values.

use crate::fen::{fen_is_sound, is_sound_fen, MEN_LIMIT};
use std::str::FromStr;
use vstd::arithmetic::power2::{lemma2_to64, lemma2_to64_rest, lemma_pow2_unfold, pow2};
use vstd::prelude::*;

verus! {

/// The two sides.
#[derive(Clone, Copy, Debug, PartialEq, Eq, Structural)]
pub enum Color {
    White,
    Black,
}

/// The six kinds of piece, in ascending value.
#[derive(Clone, Copy, Debug, PartialEq, Eq, Structural)]
pub enum Piece {
    Pawn,
    Knight,
    Bishop,
    Rook,
    Queen,
    King,
}

/// A move: the square left, the square reached (both counted from a1 = 0 along
/// the ranks to h8 = 63), and the piece a pawn promotes to.
#[derive(Clone, Copy, Debug, PartialEq, Eq, Structural)]
pub struct ChessMove {
    pub source: u8,
    pub dest: u8,
    pub promotion: Option<Piece>,
}

/// Where a game stands.
#[derive(Clone, Copy, Debug, PartialEq, Eq, Structural)]
pub enum BoardStatus {
    /// The side to move has a legal move.
    Ongoing,
    /// The side to move has no legal move and is not in check.
    Stalemate,
    /// The side to move has no legal move and is in check.
    Checkmate,
}

/// Why a position could not be read.
#[derive(Clone, Copy, Debug, PartialEq, Eq, Structural)]
pub enum FenError {
    /// The text is no FEN record of a position that can arise in play.
    Invalid,
}

/// The `chess` crate's `Board`, carried as it is.
#[verifier::external_type_specification]
#[verifier::external_body]
pub struct ExBoard(chess::Board);

/// The `chess` crate's `Error`, carried as it is.
#[verifier::external_type_specification]
#[verifier::external_body]
pub struct ExBoardError(chess::Error);

/// A position: the board, the side to move, castling rights and the en
/// passant square, as the `chess` crate keeps them.
#[derive(Clone, Copy, Debug, PartialEq, Eq)]
pub struct Position {
    board: chess::Board,
}

/// The mask that selects every square.
pub const ALL_SQUARES: u64 = 0xffff_ffff_ffff_ffff;

/// The legal moves of `pos` that land on a square of `targets` (bit `n` stands
/// for square `n`), in the order in which the move generator yields them.
pub uninterp spec fn legal_moves_to(pos: Position, targets: u64) -> Seq<ChessMove>;

/// The position that the legal move `m` leads to from `pos`.
pub uninterp spec fn position_after(pos: Position, m: ChessMove) -> Position;

/// The position in which the other side is to move and nothing else has
/// changed but the en passant square, or nothing where `pos` allows no pass.
pub uninterp spec fn position_passed(pos: Position) -> Option<Position>;

/// The 64-bit hash of `pos`.
pub uninterp spec fn position_hash(pos: Position) -> u64;

/// The squares from which a piece gives check to the side to move.
pub uninterp spec fn checkers_of(pos: Position) -> u64;

/// The squares that hold a piece of kind `piece`, of either colour.
pub uninterp spec fn squares_of_piece(pos: Position, piece: Piece) -> u64;

/// The squares that hold a piece of `color`.
pub uninterp spec fn squares_of_color(pos: Position, color: Color) -> u64;

/// The side to move in `pos`.
pub uninterp spec fn mover_of(pos: Position) -> Color;

/// The kind of piece on `square`, if there is one.
pub uninterp spec fn piece_at(pos: Position, square: u8) -> Option<Piece>;

/// The position that a FEN record describes, if it describes one.
pub uninterp spec fn position_of_fen(fen: Seq<char>) -> Option<Position>;

/// Whether a character is the letter of a file.
pub open spec fn is_file_letter(c: char) -> bool {
    'a' <= c && c <= 'h'
}

/// Whether a character is the digit of a rank.
pub open spec fn is_rank_digit(c: char) -> bool {
    '1' <= c && c <= '8'
}

/// The square that a file's letter and a rank's digit name.
pub open spec fn square_named(file: char, rank: char) -> u8 {
    ((rank as u32 - '1' as u32) * 8 + (file as u32 - 'a' as u32)) as u8
}

/// The piece that a promotion letter of UCI notation stands for.
pub open spec fn promotion_named(c: char) -> Option<Piece> {
    if c == 'q' {
        Some(Piece::Queen)
    } else if c == 'r' {
        Some(Piece::Rook)
    } else if c == 'n' {
        Some(Piece::Knight)
    } else if c == 'b' {
        Some(Piece::Bishop)
    } else {
        None
    }
}

/// The move that a text in UCI notation writes, if it writes one: the text
/// begins with two squares, each a file's letter and a rank's digit. A text of
/// five bytes ends in the letter of the piece promoted to, one of `q`, `r`,
/// `n` and `b`; in a text of any other length, what follows the squares is
/// passed over.
pub open spec fn move_of_uci(text: Seq<char>) -> Option<ChessMove> {
    if text.len() >= 4 && is_file_letter(text[0]) && is_rank_digit(text[1]) && is_file_letter(
        text[2],
    ) && is_rank_digit(text[3]) {
        let source = square_named(text[0], text[1]);
        let dest = square_named(text[2], text[3]);
        if text.len() == 5 && (text[4] as u32) < 128 {
            match promotion_named(text[4]) {
                Some(piece) => Some(ChessMove { source, dest, promotion: Some(piece) }),
                None => None,
            }
        } else {
            Some(ChessMove { source, dest, promotion: None })
        }
    } else {
        None
    }
}

/// The letter of a square's file.
pub open spec fn file_letter(square: u8) -> char {
    ('a' as u8 + square % 8) as char
}

/// The digit of a square's rank.
pub open spec fn rank_digit(square: u8) -> char {
    ('1' as u8 + square / 8) as char
}

/// The small letter of a piece.
pub open spec fn piece_letter(piece: Piece) -> char {
    match piece {
        Piece::Pawn => 'p',
        Piece::Knight => 'n',
        Piece::Bishop => 'b',
        Piece::Rook => 'r',
        Piece::Queen => 'q',
        Piece::King => 'k',
    }
}

/// A move between two squares of the board in UCI notation: the file and
/// rank of the square left, those of the square reached, and the letter of
/// the piece promoted to.
pub open spec fn uci_of_move(m: ChessMove) -> Seq<char> {
    let squares = seq![
        file_letter(m.source),
        rank_digit(m.source),
        file_letter(m.dest),
        rank_digit(m.dest),
    ];
    match m.promotion {
        Some(piece) => squares.push(piece_letter(piece)),
        None => squares,
    }
}

/// `MoveGen::new_legal` on the position, `set_iterator_mask` with `targets`,
/// then the iterator run to its end; each move handed out by its two squares
/// (`Square::to_int`) and its promotion piece. The generator keeps a list of
/// eighteen entries, one for each man of the side to move that has a move and
/// one for each pawn that can take en passant, and does not test that bound:
/// a side of sixteen men stays inside it. Every move handed out under a mask
/// arrives on a square of the mask and is one of the moves handed out under
/// the mask of all squares.
#[verifier::external_body]
fn generate_moves(pos: &Position, targets: u64) -> (moves: Vec<ChessMove>)
    requires
        !pos.crowded(),
    ensures
        moves@ == legal_moves_to(*pos, targets),
        forall|i: int|
            0 <= i < moves@.len() ==> legal_moves_to(*pos, ALL_SQUARES).contains(
                #[trigger] moves@[i],
            ),
        forall|i: int|
            0 <= i < moves@.len() ==> (#[trigger] moves@[i]).dest < 64 && (targets >> (
            moves@[i].dest as u64)) & 1 == 1,
{
    let kinds = [Piece::Pawn, Piece::Knight, Piece::Bishop, Piece::Rook, Piece::Queen, Piece::King];
    let mut generator = chess::MoveGen::new_legal(&pos.board);
    generator.set_iterator_mask(chess::BitBoard(targets));
    generator.map(|m| ChessMove {
        source: m.get_source().to_int(),
        dest: m.get_dest().to_int(),
        promotion: m.get_promotion().map(|p| kinds[p.to_index()]),
    }).collect()
}

/// The `len` of `MoveGen::new_legal` on the position, which counts the moves
/// that the iterator yields without running it. The generator's list is
/// filled as for [`generate_moves`], so the same bound is asked.
#[verifier::external_body]
fn count_generated(pos: &Position) -> (count: usize)
    requires
        !pos.crowded(),
    ensures
        count == legal_moves_to(*pos, ALL_SQUARES).len(),
{
    chess::MoveGen::new_legal(&pos.board).len()
}

/// `Board::make_move_new` with the move rebuilt by `ChessMove::new`. The
/// `chess` crate leaves open what happens on a move that its generator did
/// not yield, so only such moves are admitted.
#[verifier::external_body]
fn apply_move(pos: &Position, m: ChessMove) -> (next: Position)
    requires
        pos.is_legal(m),
    ensures
        next == position_after(*pos, m),
{
    let promotion = m.promotion.map(|p| chess::ALL_PIECES[p as usize]);
    let source = chess::ALL_SQUARES[m.source as usize];
    let dest = chess::ALL_SQUARES[m.dest as usize];
    Position { board: pos.board.make_move_new(chess::ChessMove::new(source, dest, promotion)) }
}

/// `Board::null_move`.
#[verifier::external_body]
fn pass_move(pos: &Position) -> (next: Option<Position>)
    ensures
        next == position_passed(*pos),
{
    pos.board.null_move().map(|board| Position { board })
}

/// `Board::get_hash`.
#[verifier::external_body]
fn hash_position(pos: &Position) -> (hash: u64)
    ensures
        hash == position_hash(*pos),
{
    pos.board.get_hash()
}

/// `Board::checkers`, as the bitboard's 64 bits.
#[verifier::external_body]
fn checkers(pos: &Position) -> (squares: u64)
    ensures
        squares == checkers_of(*pos),
{
    pos.board.checkers().0
}

/// `Board::pieces`, as the bitboard's 64 bits.
#[verifier::external_body]
fn piece_squares(pos: &Position, piece: Piece) -> (squares: u64)
    ensures
        squares == squares_of_piece(*pos, piece),
{
    pos.board.pieces(chess::ALL_PIECES[piece as usize]).0
}

/// `Board::color_combined`, as the bitboard's 64 bits.
#[verifier::external_body]
fn color_squares(pos: &Position, color: Color) -> (squares: u64)
    ensures
        squares == squares_of_color(*pos, color),
{
    pos.board.color_combined(chess::ALL_COLORS[color as usize]).0
}

/// `Board::side_to_move`.
#[verifier::external_body]
fn mover(pos: &Position) -> (color: Color)
    ensures
        color == mover_of(*pos),
{
    match pos.board.side_to_move() {
        chess::Color::White => Color::White,
        chess::Color::Black => Color::Black,
    }
}

/// `Board::piece_on`, for a square of the board.
#[verifier::external_body]
fn piece_on_square(pos: &Position, square: u8) -> (piece: Option<Piece>)
    requires
        square < 64,
    ensures
        piece == piece_at(*pos, square),
{
    let kinds = [Piece::Pawn, Piece::Knight, Piece::Bishop, Piece::Rook, Piece::Queen, Piece::King];
    pos.board.piece_on(chess::ALL_SQUARES[square as usize]).map(|p| kinds[p.to_index()])
}

/// `Board::from_str`: the position that a FEN record describes, or the
/// crate's error. The crate reads outside its tables where the side to move
/// has no king; in a sound record it has one.
#[verifier::external_body]
fn parse_fen(fen: &str) -> (parsed: Result<Position, chess::Error>)
    requires
        fen_is_sound(fen@),
    ensures
        parsed is Ok == position_of_fen(fen@) is Some,
        parsed is Ok ==> Some(parsed->Ok_0) == position_of_fen(fen@),
{
    chess::Board::from_str(fen).map(|board| Position { board })
}

/// `ChessMove::from_str`: the source square is read from the first two
/// bytes and the destination from the next two, each by `Square::from_str`
/// (a letter from `a` to `h`, a digit from `1` to `8`); a text of five bytes
/// must end in `q`, `r`, `n` or `b`, and a text of another length promotes to
/// nothing. A character of one byte is one below 128.
#[verifier::external_body]
fn parse_uci_move(text: &str) -> (m: Option<ChessMove>)
    ensures
        m == move_of_uci(text@),
{
    let kinds = [Piece::Pawn, Piece::Knight, Piece::Bishop, Piece::Rook, Piece::Queen, Piece::King];
    chess::ChessMove::from_str(text).ok().map(|m| ChessMove {
        source: m.get_source().to_int(),
        dest: m.get_dest().to_int(),
        promotion: m.get_promotion().map(|p| kinds[p.to_index()]),
    })
}

/// The `Display` of the crate's `ChessMove`, rebuilt by `ChessMove::new`: the
/// two squares, each as its file's letter and its rank's digit, and the
/// promotion piece as its small letter.
#[verifier::external_body]
fn format_uci_move(m: ChessMove) -> (text: String)
    requires
        m.source < 64,
        m.dest < 64,
    ensures
        text@ == uci_of_move(m),
{
    let promotion = m.promotion.map(|p| chess::ALL_PIECES[p as usize]);
    let source = chess::ALL_SQUARES[m.source as usize];
    let dest = chess::ALL_SQUARES[m.dest as usize];
    format!("{}", chess::ChessMove::new(source, dest, promotion))
}

/// `u64::count_ones`: the number of one bits.
pub assume_specification[ u64::count_ones ](bits: u64) -> (count: u32)
    ensures
        count == ones_in(bits as nat),
;

/// The number of ones in the binary notation of `n`.
pub open spec fn ones_in(n: nat) -> nat
    decreases n,
{
    if n == 0 {
        0
    } else {
        n % 2 + ones_in(n / 2)
    }
}

proof fn lemma_ones_below(n: nat, width: nat)
    requires
        n < pow2(width),
    ensures
        ones_in(n) <= width,
    decreases width,
{
    if n != 0 {
        if width == 0 {
            lemma2_to64();
        } else {
            lemma_pow2_unfold(width);
            lemma_ones_below(n / 2, (width - 1) as nat);
        }
    }
}

/// A 64-bit word has at most 64 one bits.
pub proof fn lemma_ones_in_word(bits: u64)
    ensures
        ones_in(bits as nat) <= 64,
{
    lemma2_to64_rest();
    lemma_ones_below(bits as nat, 64);
}

/// The other side.
pub open spec fn other_side(color: Color) -> Color {
    match color {
        Color::White => Color::Black,
        Color::Black => Color::White,
    }
}

/// The other side.
pub fn opponent(color: Color) -> (other: Color)
    ensures
        other == other_side(color),
{
    match color {
        Color::White => Color::Black,
        Color::Black => Color::White,
    }
}

impl ChessMove {
    /// The move in UCI notation; `0000`, the notation's null move, for a
    /// move that names a square off the board.
    pub open spec fn uci(self) -> Seq<char> {
        if self.source < 64 && self.dest < 64 {
            uci_of_move(self)
        } else {
            "0000"@
        }
    }

    /// Reads a move in UCI notation.
    pub fn from_uci(text: &str) -> (m: Option<ChessMove>)
        ensures
            m == move_of_uci(text@),
    {
        parse_uci_move(text)
    }

    /// Writes the move in UCI notation.
    pub fn to_uci(&self) -> (text: String)
        ensures
            text@ == self.uci(),
    {
        if self.source < 64 && self.dest < 64 {
            format_uci_move(*self)
        } else {
            "0000".to_owned()
        }
    }
}

impl Position {
    /// The side to move has more men than a side can have in a game. The
    /// moves of such a side are not generated: it counts as having none.
    pub open spec fn crowded(self) -> bool {
        ones_in(squares_of_color(self, mover_of(self)) as nat) > MEN_LIMIT
    }

    /// All legal moves, in generation order.
    pub open spec fn moves(self) -> Seq<ChessMove> {
        if self.crowded() {
            Seq::<ChessMove>::empty()
        } else {
            legal_moves_to(self, ALL_SQUARES)
        }
    }

    /// The legal moves that land on a square held by the side not to move, in
    /// generation order.
    pub open spec fn captures(self) -> Seq<ChessMove> {
        if self.moves().len() == 0 {
            Seq::<ChessMove>::empty()
        } else {
            legal_moves_to(self, squares_of_color(self, other_side(mover_of(self))))
        }
    }

    /// The side to move is not crowded, and the move generator yields `m` for
    /// some choice of target squares.
    pub open spec fn is_legal(self, m: ChessMove) -> bool {
        !self.crowded() && exists|targets: u64| #[trigger] legal_moves_to(self, targets).contains(m)
    }

    /// The side to move is in check.
    pub open spec fn checked(self) -> bool {
        checkers_of(self) != 0
    }

    /// Ongoing while there is a legal move; without one, checkmate if in check
    /// and stalemate if not.
    pub open spec fn status_of(self) -> BoardStatus {
        if self.moves().len() > 0 {
            BoardStatus::Ongoing
        } else if self.checked() {
            BoardStatus::Checkmate
        } else {
            BoardStatus::Stalemate
        }
    }

    /// The kind of piece on `square`; nothing on an empty square or for a
    /// number that is no square.
    pub open spec fn occupant(self, square: u8) -> Option<Piece> {
        if square < 64 {
            piece_at(self, square)
        } else {
            None
        }
    }

    /// How many pieces of one kind and colour stand on the board.
    pub open spec fn count(self, piece: Piece, color: Color) -> nat {
        ones_in((squares_of_piece(self, piece) & squares_of_color(self, color)) as nat)
    }

    /// How many pieces stand on the board.
    pub open spec fn men(self) -> nat {
        ones_in(squares_of_color(self, Color::White) as nat) + ones_in(
            squares_of_color(self, Color::Black) as nat,
        )
    }

    /// The position that a record describes: that of a sound record which
    /// the rules of chess accept.
    pub open spec fn described_by(fen: Seq<char>) -> Option<Position> {
        if fen_is_sound(fen) {
            position_of_fen(fen)
        } else {
            None
        }
    }

    /// Reads a position from a FEN record.
    pub fn from_fen(fen: &str) -> (parsed: Result<Position, FenError>)
        ensures
            parsed == match Position::described_by(fen@) {
                Some(pos) => Ok::<Position, FenError>(pos),
                None => Err(FenError::Invalid),
            },
    {
        if !is_sound_fen(fen) {
            return Err(FenError::Invalid);
        }
        match parse_fen(fen) {
            Ok(pos) => Ok(pos),
            Err(_) => Err(FenError::Invalid),
        }
    }

    /// Whether the side to move has more than sixteen men.
    pub fn is_crowded(&self) -> (crowded: bool)
        ensures
            crowded == self.crowded(),
    {
        let own = color_squares(self, mover(self));
        own.count_ones() > 16
    }

    /// All legal moves.
    pub fn legal_moves(&self) -> (moves: Vec<ChessMove>)
        ensures
            moves@ == self.moves(),
            forall|i: int| 0 <= i < moves@.len() ==> self.is_legal(#[trigger] moves@[i]),
    {
        if self.is_crowded() {
            return Vec::new();
        }
        let moves = generate_moves(self, ALL_SQUARES);
        assert forall|i: int| 0 <= i < moves@.len() implies self.is_legal(#[trigger] moves@[i]) by {
            assert(legal_moves_to(*self, ALL_SQUARES).contains(moves@[i]));
        }
        moves
    }

    /// The legal moves onto a square that the other side holds.
    pub fn capture_moves(&self) -> (moves: Vec<ChessMove>)
        ensures
            moves@ == self.captures(),
            forall|i: int| 0 <= i < moves@.len() ==> self.is_legal(#[trigger] moves@[i]),
    {
        if self.is_crowded() {
            return Vec::new();
        }
        let targets = color_squares(self, opponent(mover(self)));
        let moves = generate_moves(self, targets);
        assert forall|i: int| 0 <= i < moves@.len() implies self.is_legal(#[trigger] moves@[i]) by {
            assert(legal_moves_to(*self, targets).contains(moves@[i]));
        }
        assert(self.moves().len() == 0 ==> moves@.len() == 0) by {
            if moves@.len() > 0 {
                assert(legal_moves_to(*self, ALL_SQUARES).contains(moves@[0]));
            }
        }
        assert(moves@ =~= self.captures());
        moves
    }

    /// Plays a legal move.
    pub fn make_move_new(&self, m: ChessMove) -> (next: Position)
        requires
            self.is_legal(m),
        ensures
            next == position_after(*self, m),
    {
        apply_move(self, m)
    }

    /// Plays `m` if it is among the legal moves, and says so if it is not.
    pub fn play(&self, m: ChessMove) -> (next: Option<Position>)
        ensures
            next == if self.moves().contains(m) {
                Some(position_after(*self, m))
            } else {
                None
            },
    {
        let moves = self.legal_moves();
        let mut i: usize = 0;
        while i < moves.len()
            invariant
                i <= moves@.len(),
                moves@ == self.moves(),
                forall|j: int| 0 <= j < i ==> moves@[j] != m,
            decreases moves@.len() - i,
        {
            if moves[i] == m {
                assert(legal_moves_to(*self, ALL_SQUARES).contains(m));
                return Some(apply_move(self, m));
            }
            i = i + 1;
        }
        None
    }

    /// Hands the move to the other side, where the position allows that.
    pub fn null_move(&self) -> (next: Option<Position>)
        ensures
            next == position_passed(*self),
    {
        pass_move(self)
    }

    /// The position's hash.
    pub fn get_hash(&self) -> (hash: u64)
        ensures
            hash == position_hash(*self),
    {
        hash_position(self)
    }

    /// Whether the side to move is in check.
    pub fn in_check(&self) -> (checked: bool)
        ensures
            checked == self.checked(),
    {
        checkers(self) != 0
    }

    /// The side to move.
    pub fn side_to_move(&self) -> (color: Color)
        ensures
            color == mover_of(*self),
    {
        mover(self)
    }

    /// The kind of piece on a square, or nothing for an empty square or a
    /// number that is no square.
    pub fn piece_on(&self, square: u8) -> (piece: Option<Piece>)
        ensures
            piece == self.occupant(square),
    {
        if square < 64 {
            piece_on_square(self, square)
        } else {
            None
        }
    }

    /// Counts the pieces of one kind and colour.
    pub fn count_piece(&self, piece: Piece, color: Color) -> (count: u32)
        ensures
            count == self.count(piece, color),
            count <= 64,
    {
        let squares = piece_squares(self, piece) & color_squares(self, color);
        proof {
            lemma_ones_in_word(squares);
        }
        squares.count_ones()
    }

    /// Counts all pieces.
    pub fn count_men(&self) -> (count: u32)
        ensures
            count == self.men(),
            count <= 128,
    {
        let white = color_squares(self, Color::White);
        let black = color_squares(self, Color::Black);
        proof {
            lemma_ones_in_word(white);
            lemma_ones_in_word(black);
        }
        white.count_ones() + black.count_ones()
    }

    /// The number of legal moves.
    pub fn count_moves(&self) -> (count: usize)
        ensures
            count == self.moves().len(),
    {
        if self.is_crowded() {
            0
        } else {
            count_generated(self)
        }
    }

    /// Where the game stands.
    pub fn status(&self) -> (status: BoardStatus)
        ensures
            status == self.status_of(),
    {
        if self.count_moves() > 0 {
            BoardStatus::Ongoing
        } else if self.in_check() {
            BoardStatus::Checkmate
        } else {
            BoardStatus::Stalemate
        }
    }
}

} // verus!
