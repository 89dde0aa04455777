//! What the protocol front end and the engine say to each other, and the
//! few decisions that the front end takes itself.

use vstd::prelude::*;

use crate::board::Move;
use crate::search::SearchSummary;
use crate::INFINITY;

verus! {

/// What the engine calls itself.
pub const ENGINE_NAME: &'static str = "kychess";

/// Who wrote it.
pub const ENGINE_AUTHOR: &'static str = "skycloudd";

/// The position from which every game starts.
pub const START_POSITION: &'static str = "rnbqkbnr/pppppppp/8/8/8/8/PPPPPPPP/RNBQKBNR w KQkq - 0 1";

/// The clocks of a game, in nanoseconds: what each side has left, what each
/// gains with a move, and how many moves remain to the next time control.
#[derive(Clone, Copy, Debug, PartialEq, Eq, Structural)]
pub struct GameTime {
    pub wtime: Option<u64>,
    pub btime: Option<u64>,
    pub winc: Option<u64>,
    pub binc: Option<u64>,
    pub mtg: Option<u8>,
}

impl Default for GameTime {
    fn default() -> (r: GameTime)
        ensures
            r == (GameTime { wtime: None, btime: None, winc: None, binc: None, mtg: None }),
    {
        GameTime { wtime: None, btime: None, winc: None, binc: None, mtg: None }
    }
}

/// How long a search may last, as the front end was told.
#[derive(Clone, Copy, Debug, PartialEq, Eq, Structural)]
pub enum TimeControl {
    /// Think on the opponent's time.
    Ponder,
    /// Think until told to stop.
    Infinite,
    /// Play on the clock.
    TimeLeft(GameTime),
    /// Think for a fixed time, in nanoseconds.
    MoveTime(u64),
}

/// What the front end reports to the engine.
#[derive(Clone, Debug, PartialEq)]
pub enum UciReport {
    Uci,
    Debug(bool),
    IsReady,
    Position(String, Vec<Move>),
    UciNewGame,
    Stop,
    Quit,
    GoInfinite,
    GoMoveTime(u64),
    GoGameTime(GameTime),
    Unknown,
}

/// What the engine asks the front end to say.
#[derive(Debug)]
pub enum UciControl {
    Identify,
    Ready,
    Quit,
    BestMove(Move),
    SearchSummary(SearchSummary),
    Info(String),
}

/// A score as the protocol words it.
#[derive(Clone, Copy, Debug, PartialEq, Eq, Structural)]
pub enum Score {
    /// So many hundredths of a pawn.
    Centipawns(i32),
    /// Mate in so many moves; negative when the engine is being mated.
    Mate(i8),
}

/// How many moves a mate score is away from the mate, signed like the score.
pub open spec fn mate_distance(cp: int) -> int {
    let plies = if cp >= 0 {
        INFINITY - cp
    } else {
        INFINITY + cp
    };
    let moves = plies / 2 + plies % 2;
    if cp > 0 {
        moves
    } else {
        -moves
    }
}

/// A score is a mate score when it is more than half of `INFINITY` away from
/// zero; a mate too far off to be worded is worded as the farthest one.
pub open spec fn score_of(cp: int) -> Score {
    if cp > INFINITY / 2 || cp < -(INFINITY / 2) {
        let moves = mate_distance(cp);
        if moves > i8::MAX {
            Score::Mate(i8::MAX)
        } else if moves < i8::MIN {
            Score::Mate(i8::MIN)
        } else {
            Score::Mate(moves as i8)
        }
    } else {
        Score::Centipawns(cp as i32)
    }
}

/// The report that a `go` command becomes: a search without limit, for a
/// fixed time or on the clock; anything else is not understood.
pub open spec fn go_report_of(time_control: Option<TimeControl>, search_control: bool) -> UciReport {
    if search_control {
        UciReport::Unknown
    } else {
        match time_control {
            Some(TimeControl::Infinite) => UciReport::GoInfinite,
            Some(TimeControl::TimeLeft(game_time)) => UciReport::GoGameTime(game_time),
            Some(TimeControl::MoveTime(move_time)) => UciReport::GoMoveTime(move_time),
            Some(TimeControl::Ponder) => UciReport::Unknown,
            None => UciReport::Unknown,
        }
    }
}

/// A mate found at the root is announced with the number of moves it takes:
/// a mate delivered `plies` plies from the root is one in half as many moves,
/// rounded up.
pub proof fn lemma_mate_distance(plies: int)
    requires
        0 <= plies < INFINITY / 2,
    ensures
        mate_distance(INFINITY - plies) == (plies + 1) / 2,
        mate_distance(-INFINITY + plies) == -((plies + 1) / 2),
{
}

/// The score of a search as the protocol words it.
pub fn score_report(cp: i32) -> (r: Score)
    requires
        -INFINITY <= cp <= INFINITY,
    ensures
        r == score_of(cp as int),
{
    if cp > INFINITY / 2 || cp < -(INFINITY / 2) {
        let plies: i32 = if cp >= 0 {
            INFINITY - cp
        } else {
            INFINITY + cp
        };
        let moves: i32 = plies / 2 + plies % 2;
        let signed: i32 = if cp > 0 {
            moves
        } else {
            -moves
        };
        if signed > 127 {
            Score::Mate(127)
        } else if signed < -128 {
            Score::Mate(-128)
        } else {
            Score::Mate(signed as i8)
        }
    } else {
        Score::Centipawns(cp)
    }
}

/// The report that a `position` command becomes: the start position or the
/// one given, with the moves played from it. A command that names no
/// position is not understood.
pub fn position_report(startpos: bool, fen: Option<String>, moves: Vec<Move>) -> (r: UciReport)
    ensures
        startpos ==> (r matches UciReport::Position(f, m) && f@ == START_POSITION@ && m@
            == moves@),
        !startpos && fen is Some ==> (r matches UciReport::Position(f, m) && f@ == fen->0@ && m@
            == moves@),
        !startpos && fen is None ==> r == UciReport::Unknown,
{
    if startpos {
        UciReport::Position(START_POSITION.to_owned(), moves)
    } else {
        match fen {
            Some(fen) => UciReport::Position(fen, moves),
            None => UciReport::Unknown,
        }
    }
}

/// The report that a `go` command becomes.
pub fn go_report(time_control: Option<TimeControl>, search_control: bool) -> (r: UciReport)
    ensures
        r == go_report_of(time_control, search_control),
{
    if search_control {
        UciReport::Unknown
    } else {
        match time_control {
            Some(TimeControl::Infinite) => UciReport::GoInfinite,
            Some(TimeControl::TimeLeft(game_time)) => UciReport::GoGameTime(game_time),
            Some(TimeControl::MoveTime(move_time)) => UciReport::GoMoveTime(move_time),
            Some(TimeControl::Ponder) => UciReport::Unknown,
            None => UciReport::Unknown,
        }
    }
}

} // verus!
