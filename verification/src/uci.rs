//! The commands of the UCI protocol that carry data: `position`, which sets
//! up the board, and `go`, with its options and the depth they ask for.

use crate::position::{move_of_uci, position_after, ChessMove, Position};
use crate::text::same_text;
use vstd::prelude::*;
use vstd::string::{StrSliceExecFns, StringExecFns};

verus! {

/// The depth searched when `go` names none.
pub const DEFAULT_GO_DEPTH: u8 = 7;

/// The depth searched on `go infinite`.
pub const INFINITE_DEPTH: u8 = 254;

/// The options of a `go` command.
#[derive(Clone, Copy, Debug, PartialEq, Eq)]
pub struct UciConfig {
    pub ponder: bool,
    pub wtime: i64,
    pub btime: i64,
    pub nodes: Option<usize>,
    pub depth: Option<u8>,
    pub movetime: Option<u64>,
    pub infinite: bool,
}

/// Why a command cannot be read.
#[derive(Clone, Copy, Debug, PartialEq, Eq, Structural)]
pub enum UciError {
    /// An option that takes a value is the last word.
    MissingValue,
    /// A value is no number, or too large for its option.
    BadNumber,
    /// The record of a `position` command describes no position.
    BadPosition,
    /// A move of a `position` command is no move, or not legal where it
    /// stands.
    BadMove,
}

/// A decimal digit.
pub open spec fn is_digit(c: char) -> bool {
    '0' <= c && c <= '9'
}

/// Every character is a decimal digit.
pub open spec fn all_digits(s: Seq<char>) -> bool {
    forall|i: int| 0 <= i < s.len() ==> is_digit(#[trigger] s[i])
}

/// The number that a string of digits writes.
pub open spec fn digits_value(s: Seq<char>) -> nat
    decreases s.len(),
{
    if s.len() == 0 {
        0
    } else {
        digits_value(s.drop_last()) * 10 + ((s.last() as u32 - '0' as u32) as nat)
    }
}

/// The number that a text writes without a sign: one digit or more.
pub open spec fn decimal_of(s: Seq<char>) -> Option<nat> {
    if s.len() > 0 && all_digits(s) {
        Some(digits_value(s))
    } else {
        None
    }
}

/// The text without its first character.
pub open spec fn tail_of(s: Seq<char>) -> Seq<char> {
    s.subrange(1, s.len() as int)
}

/// The number that a text writes for an option without sign: digits, with
/// `+` allowed in front, and no more than `max`.
pub open spec fn unsigned_of(s: Seq<char>, max: nat) -> Option<nat> {
    let digits = if s.len() > 0 && s[0] == '+' {
        tail_of(s)
    } else {
        s
    };
    match decimal_of(digits) {
        Some(value) => if value <= max {
            Some(value)
        } else {
            None
        },
        None => None,
    }
}

/// The number that a text writes for a 64-bit option with sign: digits, with
/// `+` or `-` allowed in front.
pub open spec fn signed_of(s: Seq<char>) -> Option<int> {
    if s.len() > 0 && s[0] == '-' {
        match decimal_of(tail_of(s)) {
            Some(value) => if value <= 0x8000_0000_0000_0000 {
                Some(-(value as int))
            } else {
                None
            },
            None => None,
        }
    } else {
        match unsigned_of(s, 0x7fff_ffff_ffff_ffff) {
            Some(value) => Some(value as int),
            None => None,
        }
    }
}

/// The words of a command.
pub open spec fn words_of(tokens: Seq<String>) -> Seq<Seq<char>> {
    Seq::new(tokens.len(), |i: int| tokens[i]@)
}

/// An option whose value is read over.
pub open spec fn is_skipped_option(word: Seq<char>) -> bool {
    word == "movestogo"@ || word == "winc"@ || word == "binc"@ || word == "mate"@
}

/// An option that takes a number.
pub open spec fn is_number_option(word: Seq<char>) -> bool {
    word == "wtime"@ || word == "btime"@ || word == "depth"@ || word == "nodes"@ || word
        == "movetime"@
}

/// The options after the number option `word` has been given `value`, or
/// nothing if `value` is no number for it.
pub open spec fn with_number(config: UciConfig, word: Seq<char>, value: Seq<char>) -> Option<
    UciConfig,
> {
    if word == "wtime"@ {
        match signed_of(value) {
            Some(n) => Some(UciConfig { wtime: n as i64, ..config }),
            None => None,
        }
    } else if word == "btime"@ {
        match signed_of(value) {
            Some(n) => Some(UciConfig { btime: n as i64, ..config }),
            None => None,
        }
    } else if word == "depth"@ {
        match unsigned_of(value, 255) {
            Some(n) => Some(UciConfig { depth: Some(n as u8), ..config }),
            None => None,
        }
    } else if word == "nodes"@ {
        match unsigned_of(value, usize::MAX as nat) {
            Some(n) => Some(UciConfig { nodes: Some(n as usize), ..config }),
            None => None,
        }
    } else {
        match unsigned_of(value, u64::MAX as nat) {
            Some(n) => Some(UciConfig { movetime: Some(n as u64), ..config }),
            None => None,
        }
    }
}

/// The options that the words from index `from` on add to `config`. A word
/// that is no option is passed over.
pub open spec fn go_from(words: Seq<Seq<char>>, from: int, config: UciConfig) -> Result<
    UciConfig,
    UciError,
>
    decreases words.len() - from,
{
    if from < 0 || from >= words.len() {
        Ok(config)
    } else if is_skipped_option(words[from]) {
        if from + 1 < words.len() {
            go_from(words, from + 2, config)
        } else {
            Err(UciError::MissingValue)
        }
    } else if is_number_option(words[from]) {
        if from + 1 < words.len() {
            match with_number(config, words[from], words[from + 1]) {
                Some(next) => go_from(words, from + 2, next),
                None => Err(UciError::BadNumber),
            }
        } else {
            Err(UciError::MissingValue)
        }
    } else if words[from] == "ponder"@ {
        go_from(words, from + 1, UciConfig { ponder: true, ..config })
    } else if words[from] == "infinite"@ {
        go_from(words, from + 1, UciConfig { infinite: true, ..config })
    } else {
        go_from(words, from + 1, config)
    }
}

/// The options of a `go` command that names none.
pub open spec fn no_options() -> UciConfig {
    UciConfig {
        ponder: false,
        wtime: 0,
        btime: 0,
        nodes: None,
        depth: None,
        movetime: None,
        infinite: false,
    }
}

/// The depth that the options ask for: 254 on `infinite`, else the depth
/// named, else 7.
pub open spec fn depth_asked(config: UciConfig) -> u8 {
    if config.infinite {
        INFINITE_DEPTH
    } else {
        match config.depth {
            Some(depth) => depth,
            None => DEFAULT_GO_DEPTH,
        }
    }
}

/// A string of digits writes at least what any of its beginnings writes.
pub proof fn lemma_digits_grow(s: Seq<char>, upto: int)
    requires
        all_digits(s),
        0 <= upto <= s.len(),
    ensures
        digits_value(s.take(upto)) <= digits_value(s),
    decreases s.len() - upto,
{
    if upto < s.len() {
        let longer = s.take(upto + 1);
        assert(longer.drop_last() =~= s.take(upto));
        lemma_digits_grow(s, upto + 1);
    } else {
        assert(s.take(upto) =~= s);
    }
}

/// Reads the digits of `text` from index `from` on, as a number up to `max`.
fn read_digits(text: &str, from: usize, max: u64) -> (value: Option<u64>)
    requires
        from <= text@.len(),
    ensures
        value == match decimal_of(text@.subrange(from as int, text@.len() as int)) {
            Some(n) => if n <= max {
                Some(n as u64)
            } else {
                None
            },
            None => None,
        },
{
    let len = text.unicode_len();
    let ghost digits = text@.subrange(from as int, len as int);
    if from == len {
        return None;
    }
    let mut value: u64 = 0;
    let mut i: usize = from;
    while i < len
        invariant
            from <= i <= len,
            len == text@.len(),
            digits == text@.subrange(from as int, len as int),
            all_digits(digits.take(i - from)),
            value == digits_value(digits.take(i - from)),
            value <= max,
        decreases len - i,
    {
        let c = text.get_char(i);
        proof {
            assert(digits[i - from] == c);
            assert(digits.take(i - from + 1).drop_last() =~= digits.take(i - from));
        }
        if !('0' <= c && c <= '9') {
            return None;
        }
        let digit = (c as u32 - '0' as u32) as u64;
        proof {
            assert forall|k: int| 0 <= k < i - from + 1 implies is_digit(
                #[trigger] digits.take(i - from + 1)[k],
            ) by {
                if k < i - from {
                    assert(digits.take(i - from)[k] == digits[k]);
                }
            }
        }
        if digit > max || value > (max - digit) / 10 {
            proof {
                if all_digits(digits) {
                    lemma_digits_grow(digits, i - from + 1);
                }
            }
            return None;
        }
        value = value * 10 + digit;
        i = i + 1;
    }
    proof {
        assert(digits.take(len - from) =~= digits);
    }
    Some(value)
}

fn read_unsigned(text: &str, max: u64) -> (value: Option<u64>)
    ensures
        value == match unsigned_of(text@, max as nat) {
            Some(n) => Some(n as u64),
            None => None,
        },
{
    if text.unicode_len() > 0 && text.get_char(0) == '+' {
        read_digits(text, 1, max)
    } else {
        proof {
            assert(text@.subrange(0, text@.len() as int) =~= text@);
        }
        read_digits(text, 0, max)
    }
}

fn read_signed(text: &str) -> (value: Option<i64>)
    ensures
        value == match signed_of(text@) {
            Some(n) => Some(n as i64),
            None => None,
        },
{
    if text.unicode_len() > 0 && text.get_char(0) == '-' {
        match read_digits(text, 1, 0x8000_0000_0000_0000) {
            Some(size) => if size == 0x8000_0000_0000_0000 {
                Some(i64::MIN)
            } else {
                Some(-(size as i64))
            },
            None => None,
        }
    } else {
        match read_unsigned(text, 0x7fff_ffff_ffff_ffff) {
            Some(size) => Some(size as i64),
            None => None,
        }
    }
}

fn read_number(config: UciConfig, word: &str, value: &str) -> (next: Option<UciConfig>)
    requires
        is_number_option(word@),
    ensures
        next == with_number(config, word@, value@),
{
    let mut next = config;
    if same_text(word, "wtime") {
        match read_signed(value) {
            Some(n) => {
                next.wtime = n;
                Some(next)
            },
            None => None,
        }
    } else if same_text(word, "btime") {
        match read_signed(value) {
            Some(n) => {
                next.btime = n;
                Some(next)
            },
            None => None,
        }
    } else if same_text(word, "depth") {
        match read_unsigned(value, 255) {
            Some(n) => {
                next.depth = Some(n as u8);
                Some(next)
            },
            None => None,
        }
    } else if same_text(word, "nodes") {
        match read_unsigned(value, usize::MAX as u64) {
            Some(n) => {
                next.nodes = Some(n as usize);
                Some(next)
            },
            None => None,
        }
    } else {
        match read_unsigned(value, u64::MAX) {
            Some(n) => {
                next.movetime = Some(n);
                Some(next)
            },
            None => None,
        }
    }
}

/// The record of the position from which a game starts.
pub open spec fn start_record() -> Seq<char> {
    "rnbqkbnr/pppppppp/8/8/8/8/PPPPPPPP/RNBQKBNR w KQkq - 0 1"@
}

/// The words from index `from` up to index `to`, with a space between each
/// two.
pub open spec fn joined(words: Seq<Seq<char>>, from: int, to: int) -> Seq<char>
    decreases to - from,
{
    if to <= from {
        Seq::<char>::empty()
    } else if to == from + 1 {
        words[from]
    } else {
        joined(words, from, to - 1) + seq![' '] + words[to - 1]
    }
}

/// The index of the first word `moves` from index `from` on, or the number of
/// words if there is none.
pub open spec fn moves_word(words: Seq<Seq<char>>, from: int) -> int
    decreases words.len() - from,
{
    if from < 0 || from >= words.len() {
        words.len() as int
    } else if words[from] == "moves"@ {
        from
    } else {
        moves_word(words, from + 1)
    }
}

/// The position after the moves that the words from index `from` on write
/// have been played from `pos`, each of them legal where it stands.
pub open spec fn played(pos: Position, words: Seq<Seq<char>>, from: int) -> Result<Position, UciError>
    decreases words.len() - from,
{
    if from < 0 || from >= words.len() {
        Ok(pos)
    } else {
        match move_of_uci(words[from]) {
            Some(m) => if pos.moves().contains(m) {
                played(position_after(pos, m), words, from + 1)
            } else {
                Err(UciError::BadMove)
            },
            None => Err(UciError::BadMove),
        }
    }
}

/// The position that the words after `position` set up. After `fen` come the
/// fields of a record, up to the word `moves`; `startpos` stands for the
/// start of a game and is followed by one word, `moves`, that is passed over;
/// after any other word, and without one, the game starts from its start too.
/// The words that remain are moves; each is played.
pub open spec fn position_of_command(words: Seq<Seq<char>>) -> Result<Position, UciError> {
    if words.len() > 0 && words[0] == "fen"@ {
        match Position::described_by(joined(words, 1, moves_word(words, 1))) {
            Some(pos) => played(pos, words, moves_word(words, 1) + 1),
            None => Err(UciError::BadPosition),
        }
    } else {
        match Position::described_by(start_record()) {
            Some(pos) => if words.len() == 0 {
                Ok(pos)
            } else if words[0] == "startpos"@ {
                played(pos, words, 2)
            } else {
                played(pos, words, 1)
            },
            None => Err(UciError::BadPosition),
        }
    }
}

fn play_words(pos: Position, tokens: &Vec<String>, from: usize) -> (end: Result<Position, UciError>)
    ensures
        end == played(pos, words_of(tokens@), from as int),
{
    let ghost words = words_of(tokens@);
    let mut board = pos;
    let mut i: usize = from;
    while i < tokens.len()
        invariant
            words == words_of(tokens@),
            played(pos, words, from as int) == played(board, words, i as int),
        decreases tokens@.len() - i,
    {
        let word = tokens[i].as_str();
        assert(word@ == words[i as int]);
        match ChessMove::from_uci(word) {
            Some(m) => match board.play(m) {
                Some(next) => {
                    board = next;
                },
                None => {
                    return Err(UciError::BadMove);
                },
            },
            None => {
                return Err(UciError::BadMove);
            },
        }
        i = i + 1;
    }
    Ok(board)
}

/// Sets up the position that the words after `position` describe.
pub fn read_position(tokens: &Vec<String>) -> (set_up: Result<Position, UciError>)
    ensures
        set_up == position_of_command(words_of(tokens@)),
{
    let ghost words = words_of(tokens@);
    if tokens.len() > 0 {
        assert(tokens@[0]@ == words[0]);
    }
    if tokens.len() > 0 && same_text(tokens[0].as_str(), "fen") {
        let mut record = String::new();
        let mut end: usize = 1;
        while end < tokens.len() && !same_text(tokens[end].as_str(), "moves")
            invariant
                1 <= end <= tokens@.len(),
                words == words_of(tokens@),
                record@ == joined(words, 1, end as int),
                moves_word(words, 1) == moves_word(words, end as int),
            decreases tokens@.len() - end,
        {
            assert(tokens@[end as int]@ == words[end as int]);
            if end > 1 {
                proof {
                    reveal_strlit(" ");
                }
                record.append(" ");
                assert(" "@ =~= seq![' ']);
            }
            record.append(tokens[end].as_str());
            end = end + 1;
        }
        proof {
            if end < tokens@.len() {
                assert(tokens@[end as int]@ == words[end as int]);
            }
        }
        match Position::from_fen(record.as_str()) {
            Ok(pos) => {
                if end < tokens.len() {
                    play_words(pos, tokens, end + 1)
                } else {
                    Ok(pos)
                }
            },
            Err(_) => Err(UciError::BadPosition),
        }
    } else {
        match Position::from_fen("rnbqkbnr/pppppppp/8/8/8/8/PPPPPPPP/RNBQKBNR w KQkq - 0 1") {
            Ok(pos) => {
                if tokens.len() == 0 {
                    Ok(pos)
                } else if same_text(tokens[0].as_str(), "startpos") {
                    if tokens.len() >= 2 {
                        play_words(pos, tokens, 2)
                    } else {
                        Ok(pos)
                    }
                } else {
                    play_words(pos, tokens, 1)
                }
            },
            Err(_) => Err(UciError::BadPosition),
        }
    }
}

impl Default for UciConfig {
    fn default() -> (config: UciConfig)
        ensures
            config == no_options(),
    {
        UciConfig {
            ponder: false,
            wtime: 0,
            btime: 0,
            nodes: None,
            depth: None,
            movetime: None,
            infinite: false,
        }
    }
}

impl UciConfig {
    /// Reads the options of a `go` command from the words that follow `go`.
    pub fn parse(tokens: &Vec<String>) -> (parsed: Result<UciConfig, UciError>)
        ensures
            parsed == go_from(words_of(tokens@), 0, no_options()),
    {
        let ghost words = words_of(tokens@);
        let mut config = UciConfig::default();
        let mut i: usize = 0;
        while i < tokens.len()
            invariant
                i <= tokens@.len(),
                words == words_of(tokens@),
                go_from(words, 0, no_options()) == go_from(words, i as int, config),
            decreases tokens@.len() - i,
        {
            let word = tokens[i].as_str();
            assert(word@ == words[i as int]);
            let skipped = same_text(word, "movestogo") || same_text(word, "winc") || same_text(
                word,
                "binc",
            ) || same_text(word, "mate");
            let numbered = same_text(word, "wtime") || same_text(word, "btime") || same_text(
                word,
                "depth",
            ) || same_text(word, "nodes") || same_text(word, "movetime");
            if skipped {
                if i + 1 < tokens.len() {
                    i = i + 2;
                } else {
                    return Err(UciError::MissingValue);
                }
            } else if numbered {
                if i + 1 < tokens.len() {
                    let value = tokens[i + 1].as_str();
                    assert(value@ == words[i + 1]);
                    match read_number(config, word, value) {
                        Some(next) => {
                            config = next;
                            i = i + 2;
                        },
                        None => {
                            return Err(UciError::BadNumber);
                        },
                    }
                } else {
                    return Err(UciError::MissingValue);
                }
            } else {
                if same_text(word, "ponder") {
                    config.ponder = true;
                } else if same_text(word, "infinite") {
                    config.infinite = true;
                }
                i = i + 1;
            }
        }
        Ok(config)
    }

    /// The depth to search for these options.
    pub fn search_depth(&self) -> (depth: u8)
        ensures
            depth == depth_asked(*self),
    {
        if self.infinite {
            INFINITE_DEPTH
        } else {
            match self.depth {
                Some(depth) => depth,
                None => DEFAULT_GO_DEPTH,
            }
        }
    }
}

} // verus!
