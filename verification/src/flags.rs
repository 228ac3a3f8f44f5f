//! The options of the command line.

use crate::transposition::{is_power_of_two, is_table_size};
use vstd::prelude::*;

verus! {

/// The depth searched unless another is asked for.
pub const DEFAULT_DEPTH: u8 = 9;

/// The size of the transposition table unless another is asked for.
pub const DEFAULT_MEMO: usize = 33554432;

/// The number of workers unless another is asked for.
pub const DEFAULT_JOBS: usize = 1;

/// What the program was asked to do.
#[derive(Clone, Debug)]
pub struct App {
    pub subcmd: SubCommand,
}

/// The two ways to run the program.
#[derive(Clone, Debug)]
pub enum SubCommand {
    /// Play the best move.
    Move(Move),
    /// Speak the UCI engine protocol.
    Uci,
}

/// The options of the `move` command.
#[derive(Clone, Debug)]
pub struct Move {
    /// A FEN record; read from standard input if absent.
    pub fen: Option<String>,
    /// Read one record after another.
    pub interactive: bool,
    /// The depth of the search.
    pub depth: u8,
    /// The size of the transposition table; a power of two.
    pub memo: usize,
    /// The number of workers.
    pub jobs: usize,
}

/// Why a set of options cannot be used.
#[derive(Clone, Copy, Debug, PartialEq, Eq, Structural)]
pub enum FlagError {
    /// A record was given together with interactive mode.
    FenWithInteractive,
    /// The table size is no power of two.
    MemoNotPowerOfTwo,
}

impl Default for Move {
    fn default() -> (options: Move)
        ensures
            options.fen is None,
            !options.interactive,
            options.depth == DEFAULT_DEPTH,
            options.memo == DEFAULT_MEMO,
            options.jobs == DEFAULT_JOBS,
    {
        Move {
            fen: None,
            interactive: false,
            depth: DEFAULT_DEPTH,
            memo: DEFAULT_MEMO,
            jobs: DEFAULT_JOBS,
        }
    }
}

impl Move {
    /// What is wrong with the options, if anything: a record given together
    /// with interactive mode first, a table size that is no power of two
    /// second.
    pub open spec fn fault(self) -> Option<FlagError> {
        if self.fen is Some && self.interactive {
            Some(FlagError::FenWithInteractive)
        } else if !is_table_size(self.memo) {
            Some(FlagError::MemoNotPowerOfTwo)
        } else {
            None
        }
    }

    /// Checks the options.
    pub fn check(&self) -> (checked: Result<(), FlagError>)
        ensures
            checked == match self.fault() {
                Some(error) => Err::<(), FlagError>(error),
                None => Ok(()),
            },
    {
        if self.fen.is_some() && self.interactive {
            Err(FlagError::FenWithInteractive)
        } else if !is_power_of_two(self.memo) {
            Err(FlagError::MemoNotPowerOfTwo)
        } else {
            Ok(())
        }
    }
}

} // verus!
