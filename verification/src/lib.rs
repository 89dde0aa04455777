//! A chess engine's search core: static evaluation, draw detection, a
//! transposition table, move ordering, time management and an
//! iterative-deepening alpha-beta search, with the decisions of the worker and
//! of the protocol front end that surround it.

use vstd::prelude::*;

pub mod board;
pub mod channel;
pub mod clock;
pub mod course;
pub mod draw;
pub mod engine;
pub mod evaluation;
pub mod ordering;
pub mod search;
pub mod sums;
pub mod table;
pub mod uci;
pub mod value;

use crate::search::SearchInformation;
use crate::uci::UciReport;

verus! {

/// The score of being checkmated on the spot; no score of a search leaves
/// `-INFINITY ..= INFINITY`.
pub const INFINITY: i32 = 10000;

/// The search never goes deeper than this many plies below the root.
pub const MAX_PLY: u8 = 200;

/// Everything that reaches the engine: what the search found and what the
/// front end heard.
#[derive(Debug)]
pub enum Information {
    SearchInformation(SearchInformation),
    UciInformation(UciReport),
}

} // verus!
