//! A first reading of a FEN record: whether its placement field fills the
//! board rank by rank and gives each side one king.

use vstd::prelude::*;
use vstd::string::StrSliceExecFns;

verus! {

/// How far the reading of a record has got.
#[derive(Clone, Copy, Debug, PartialEq, Eq)]
pub struct FenScan {
    /// Ranks completed.
    pub ranks: u8,
    /// Files filled in the rank that is being read.
    pub files: u8,
    /// White kings met.
    pub white_kings: u8,
    /// Black kings met.
    pub black_kings: u8,
    /// White men met, kings among them.
    pub white_men: u8,
    /// Black men met, kings among them.
    pub black_men: u8,
    /// The placement field has ended.
    pub closed: bool,
    /// The record cannot be sound any more.
    pub broken: bool,
}

/// The reading before the first character.
pub open spec fn fen_start() -> FenScan {
    FenScan {
        ranks: 0,
        files: 0,
        white_kings: 0,
        black_kings: 0,
        white_men: 0,
        black_men: 0,
        closed: false,
        broken: false,
    }
}

/// A reading that has failed.
pub open spec fn fen_broken(scan: FenScan) -> FenScan {
    FenScan { broken: true, ..scan }
}

/// The most men that a side can have.
pub const MEN_LIMIT: u8 = 16;

/// A letter that stands for a white piece.
pub open spec fn is_white_letter(c: char) -> bool {
    c == 'P' || c == 'N' || c == 'B' || c == 'R' || c == 'Q' || c == 'K'
}

/// A letter that stands for a black piece.
pub open spec fn is_black_letter(c: char) -> bool {
    c == 'p' || c == 'n' || c == 'b' || c == 'r' || c == 'q' || c == 'k'
}

/// A letter that stands for a piece.
pub open spec fn is_piece_letter(c: char) -> bool {
    is_white_letter(c) || is_black_letter(c)
}

/// The reading after one more character. Every character must be ASCII. In
/// the placement field a slash ends a full rank, a digit from 1 to 8 skips
/// that many files, a piece letter fills one file, and no rank takes more
/// than eight files; a space ends the field.
pub open spec fn fen_step(scan: FenScan, c: char) -> FenScan {
    if scan.broken || c as u32 >= 128 {
        fen_broken(scan)
    } else if scan.closed {
        scan
    } else if c == ' ' {
        FenScan { closed: true, ..scan }
    } else if c == '/' {
        if scan.files == 8 && scan.ranks < 7 {
            FenScan { ranks: (scan.ranks + 1) as u8, files: 0, ..scan }
        } else {
            fen_broken(scan)
        }
    } else if '1' <= c && c <= '8' {
        if scan.files + (c as u32 - '0' as u32) <= 8 {
            FenScan { files: (scan.files + (c as u32 - '0' as u32)) as u8, ..scan }
        } else {
            fen_broken(scan)
        }
    } else if is_piece_letter(c) && scan.files < 8 {
        FenScan {
            files: (scan.files + 1) as u8,
            white_kings: if c == 'K' {
                (scan.white_kings + 1) as u8
            } else {
                scan.white_kings
            },
            black_kings: if c == 'k' {
                (scan.black_kings + 1) as u8
            } else {
                scan.black_kings
            },
            white_men: if is_white_letter(c) {
                (scan.white_men + 1) as u8
            } else {
                scan.white_men
            },
            black_men: if is_black_letter(c) {
                (scan.black_men + 1) as u8
            } else {
                scan.black_men
            },
            ..scan
        }
    } else {
        fen_broken(scan)
    }
}

/// The reading after the first `upto` characters.
pub open spec fn fen_scan(fen: Seq<char>, upto: int) -> FenScan
    decreases upto,
{
    if upto <= 0 {
        fen_start()
    } else {
        fen_step(fen_scan(fen, upto - 1), fen[upto - 1])
    }
}

/// A record is sound if it is ASCII and its placement field holds eight full
/// ranks with one white and one black king and no more than sixteen men of
/// either colour.
pub open spec fn fen_is_sound(fen: Seq<char>) -> bool {
    let scan = fen_scan(fen, fen.len() as int);
    !scan.broken && scan.ranks == 7 && scan.files == 8 && scan.white_kings == 1
        && scan.black_kings == 1 && scan.white_men <= MEN_LIMIT && scan.black_men <= MEN_LIMIT
}

fn step(scan: FenScan, c: char) -> (next: FenScan)
    requires
        scan.files <= 8,
        scan.ranks <= 7,
        scan.white_kings <= scan.ranks * 8 + scan.files,
        scan.black_kings <= scan.ranks * 8 + scan.files,
        scan.white_men <= scan.ranks * 8 + scan.files,
        scan.black_men <= scan.ranks * 8 + scan.files,
    ensures
        next == fen_step(scan, c),
        next.files <= 8,
        next.ranks <= 7,
        next.white_kings <= next.ranks * 8 + next.files,
        next.black_kings <= next.ranks * 8 + next.files,
        next.white_men <= next.ranks * 8 + next.files,
        next.black_men <= next.ranks * 8 + next.files,
{
    let code = c as u32;
    let mut next = scan;
    if scan.broken || code >= 128 {
        next.broken = true;
    } else if scan.closed {
    } else if c == ' ' {
        next.closed = true;
    } else if c == '/' {
        if scan.files == 8 && scan.ranks < 7 {
            next.ranks = scan.ranks + 1;
            next.files = 0;
        } else {
            next.broken = true;
        }
    } else if '1' <= c && c <= '8' {
        let skipped = (code - '0' as u32) as u8;
        if scan.files + skipped <= 8 {
            next.files = scan.files + skipped;
        } else {
            next.broken = true;
        }
    } else if (c == 'p' || c == 'n' || c == 'b' || c == 'r' || c == 'q' || c == 'k' || c == 'P'
        || c == 'N' || c == 'B' || c == 'R' || c == 'Q' || c == 'K') && scan.files < 8 {
        next.files = scan.files + 1;
        if c == 'K' {
            next.white_kings = scan.white_kings + 1;
        }
        if c == 'k' {
            next.black_kings = scan.black_kings + 1;
        }
        if c == 'P' || c == 'N' || c == 'B' || c == 'R' || c == 'Q' || c == 'K' {
            next.white_men = scan.white_men + 1;
        } else {
            next.black_men = scan.black_men + 1;
        }
    } else {
        next.broken = true;
    }
    next
}

/// Whether a record is sound.
pub fn is_sound_fen(fen: &str) -> (sound: bool)
    ensures
        sound == fen_is_sound(fen@),
{
    let len = fen.unicode_len();
    let mut scan = FenScan {
        ranks: 0,
        files: 0,
        white_kings: 0,
        black_kings: 0,
        white_men: 0,
        black_men: 0,
        closed: false,
        broken: false,
    };
    let mut i: usize = 0;
    while i < len
        invariant
            i <= len,
            len == fen@.len(),
            scan == fen_scan(fen@, i as int),
            scan.files <= 8,
            scan.ranks <= 7,
            scan.white_kings <= scan.ranks * 8 + scan.files,
            scan.black_kings <= scan.ranks * 8 + scan.files,
            scan.white_men <= scan.ranks * 8 + scan.files,
            scan.black_men <= scan.ranks * 8 + scan.files,
        decreases len - i,
    {
        scan = step(scan, fen.get_char(i));
        i = i + 1;
    }
    !scan.broken && scan.ranks == 7 && scan.files == 8 && scan.white_kings == 1
        && scan.black_kings == 1 && scan.white_men <= MEN_LIMIT && scan.black_men <= MEN_LIMIT
}

} // verus!
