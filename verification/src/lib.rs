//! Crabfish: an iterative-deepening alpha-beta chess searcher with a
//! checksum-guarded transposition table, move ordering and a material and
//! mobility evaluator.

pub mod checksum;
pub mod eval;
pub mod fen;
pub mod flags;
pub mod helpers;
pub mod move_sort;
pub mod position;
pub mod san;
pub mod score;
pub mod search;
pub mod text;
pub mod thread_launcher;
pub mod transposition;
pub mod uci;

