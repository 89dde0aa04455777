//! The engine's own decisions: what to do about each piece of information
//! that reaches it, and how a position is set up from what the front end
//! was told.

use vstd::prelude::*;

use crate::board::{
    board_after, board_legal_moves, irreversible, position_of_fen, Move, Position,
};
use crate::ordering::contains_move;
use crate::search::{
    HistoryEntry, SearchCommand, SearchInformation, SearchMode, SearchParams,
};
use crate::uci::{GameTime, UciControl, UciReport};
use crate::value::entry_after;
use crate::Information;

verus! {

/// What is taken off a fixed time for a move before the search is given it,
/// in nanoseconds, so that the answer arrives in time.
pub const MOVE_OVERHEAD: u64 = 50000000;

/// What the engine does about a piece of information.
#[derive(Debug)]
pub enum EngineAction {
    /// Have the front end say something.
    Say(UciControl),
    /// Tell the search worker something.
    Tell(SearchCommand),
    /// Switch debugging on or off.
    SetDebug(bool),
    /// Set up a position and play moves from it.
    SetPosition(String, Vec<Move>),
    /// Set up the start position.
    NewGame,
    /// Tell front end and worker to quit, and leave.
    Quit,
    /// Do nothing.
    Nothing,
}

/// No clocks at all.
pub open spec fn no_clocks() -> GameTime {
    GameTime { wtime: None, btime: None, winc: None, binc: None, mtg: None }
}

/// The limits of a search for a fixed time: the time less the overhead, and
/// none where the overhead is all there is.
pub open spec fn move_time_params(move_time: u64) -> SearchParams {
    SearchParams {
        search_mode: SearchMode::MoveTime,
        move_time: if move_time >= MOVE_OVERHEAD {
            (move_time - MOVE_OVERHEAD) as u64
        } else {
            0
        },
        game_time: no_clocks(),
    }
}

/// Whether `action` is what the engine does about `information`: what the
/// search found is passed on to the front end; what the front end heard is
/// answered, or turned into a command for the worker, or acted on by the
/// engine itself.
pub open spec fn reaction(information: Information, action: EngineAction) -> bool {
    match information {
        Information::SearchInformation(SearchInformation::BestMove(mv)) => action
            == EngineAction::Say(UciControl::BestMove(mv)),
        Information::SearchInformation(SearchInformation::Summary(summary)) => action
            == EngineAction::Say(UciControl::SearchSummary(summary)),
        Information::SearchInformation(SearchInformation::ExtraInfo(text)) => action
            == EngineAction::Say(UciControl::Info(text)),
        Information::UciInformation(report) => match report {
            UciReport::Uci => action == EngineAction::Say(UciControl::Identify),
            UciReport::Debug(debug) => action == EngineAction::SetDebug(debug),
            UciReport::IsReady => action == EngineAction::Say(UciControl::Ready),
            UciReport::Position(fen, moves) => action == EngineAction::SetPosition(fen, moves),
            UciReport::UciNewGame => action == EngineAction::NewGame,
            UciReport::Stop => action == EngineAction::Tell(SearchCommand::Stop),
            UciReport::Quit => action == EngineAction::Quit,
            UciReport::GoInfinite => action == EngineAction::Tell(
                SearchCommand::Start(
                    SearchParams {
                        search_mode: SearchMode::Infinite,
                        move_time: 0,
                        game_time: no_clocks(),
                    },
                ),
            ),
            UciReport::GoMoveTime(move_time) => action == EngineAction::Tell(
                SearchCommand::Start(move_time_params(move_time)),
            ),
            UciReport::GoGameTime(game_time) => action == EngineAction::Tell(
                SearchCommand::Start(
                    SearchParams { search_mode: SearchMode::GameTime, move_time: 0, game_time },
                ),
            ),
            UciReport::Unknown => action == EngineAction::Nothing,
        },
    }
}

/// What the engine does about a piece of information.
pub fn react(information: Information) -> (action: EngineAction)
    ensures
        reaction(information, action),
{
    match information {
        Information::SearchInformation(found) => match found {
            SearchInformation::BestMove(mv) => EngineAction::Say(UciControl::BestMove(mv)),
            SearchInformation::Summary(summary) => EngineAction::Say(
                UciControl::SearchSummary(summary),
            ),
            SearchInformation::ExtraInfo(text) => EngineAction::Say(UciControl::Info(text)),
        },
        Information::UciInformation(report) => match report {
            UciReport::Uci => EngineAction::Say(UciControl::Identify),
            UciReport::Debug(debug) => EngineAction::SetDebug(debug),
            UciReport::IsReady => EngineAction::Say(UciControl::Ready),
            UciReport::Position(fen, moves) => EngineAction::SetPosition(fen, moves),
            UciReport::UciNewGame => EngineAction::NewGame,
            UciReport::Stop => EngineAction::Tell(SearchCommand::Stop),
            UciReport::Quit => EngineAction::Quit,
            UciReport::GoInfinite => EngineAction::Tell(
                SearchCommand::Start(
                    SearchParams {
                        search_mode: SearchMode::Infinite,
                        move_time: 0,
                        game_time: GameTime::default(),
                    },
                ),
            ),
            UciReport::GoMoveTime(move_time) => EngineAction::Tell(
                SearchCommand::Start(
                    SearchParams {
                        search_mode: SearchMode::MoveTime,
                        move_time: if move_time >= MOVE_OVERHEAD {
                            move_time - MOVE_OVERHEAD
                        } else {
                            0
                        },
                        game_time: GameTime::default(),
                    },
                ),
            ),
            UciReport::GoGameTime(game_time) => EngineAction::Tell(
                SearchCommand::Start(
                    SearchParams { search_mode: SearchMode::GameTime, move_time: 0, game_time },
                ),
            ),
            UciReport::Unknown => EngineAction::Nothing,
        },
    }
}

/// The board after the first `n` of `moves` are played from `board`, if each
/// of them is legal where it is played.
pub open spec fn played(board: chess::Board, moves: Seq<Move>, n: int) -> Option<chess::Board>
    decreases n,
{
    if n <= 0 {
        Some(board)
    } else {
        match played(board, moves, n - 1) {
            Some(reached) => if board_legal_moves(reached).contains(moves[n - 1]) {
                Some(board_after(reached, moves[n - 1]))
            } else {
                None
            },
            None => None,
        }
    }
}

/// The position that a text in Forsyth-Edwards notation and the moves played
/// from it lead to.
pub open spec fn position_of(fen: Seq<char>, moves: Seq<Move>) -> Option<chess::Board> {
    match position_of_fen(fen) {
        Some(board) => played(board, moves, moves.len() as int),
        None => None,
    }
}

/// Sets up the position that `fen` describes and plays `moves` from it.
/// Gives the position reached and the history of the moves, one entry for
/// each; gives `None` where `fen` is no playable position or a move is not
/// legal where it is to be played.
pub fn set_position(fen: &str, moves: &Vec<Move>) -> (r: Option<(Position, Vec<HistoryEntry>)>)
    ensures
        match r {
            Some((position, history)) => {
                &&& position_of(fen@, moves@) == Some(position@)
                &&& history@.len() == moves@.len()
                &&& forall|i: int|
                    0 <= i < moves@.len() ==> #[trigger] history@[i] == entry_after(
                        played(position_of_fen(fen@)->0, moves@, i)->0,
                        moves@[i],
                    )
            },
            None => position_of(fen@, moves@) is None,
        },
{
    let mut position = match Position::from_fen(fen) {
        Some(position) => position,
        None => {
            return None;
        },
    };
    let ghost start = position@;
    let mut history: Vec<HistoryEntry> = Vec::new();
    let mut i: usize = 0;
    while i < moves.len()
        invariant
            i <= moves.len(),
            position_of_fen(fen@) == Some(start),
            played(start, moves@, i as int) == Some(position@),
            history@.len() == i,
            forall|j: int|
                0 <= j < i ==> #[trigger] history@[j] == entry_after(
                    played(start, moves@, j)->0,
                    moves@[j],
                ),
        decreases moves.len() - i,
    {
        let mv = moves[i];
        let legal = position.legal_moves();
        if !contains_move(&legal, mv) {
            proof {
                lemma_played_stays_none(start, moves@, i as int + 1, moves@.len() as int);
            }
            return None;
        }
        proof {
            let k = choose|k: int| 0 <= k < legal@.len() && legal@[k] == mv;
            assert(legal@[k].from < 64 && legal@[k].to < 64);
        }
        let placement = position.placement();
        let reversible = !irreversible(&placement, mv);
        position = position.make_move(mv);
        history.push(HistoryEntry { hash: position.hash(), is_reversible_move: reversible });
        i = i + 1;
    }
    Some((position, history))
}

/// Once a move could not be played, no longer line can be.
pub proof fn lemma_played_stays_none(board: chess::Board, moves: Seq<Move>, m: int, n: int)
    requires
        0 <= m <= n,
        played(board, moves, m) is None,
    ensures
        played(board, moves, n) is None,
    decreases n,
{
    if m < n {
        lemma_played_stays_none(board, moves, m, n - 1);
    }
}

} // verus!
