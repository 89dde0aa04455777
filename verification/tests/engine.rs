use std::str::FromStr;

use chess::{Board, ChessMove, Square};
use kychess::board::{Move, Piece};
use kychess::engine::{react, set_position, EngineAction};
use kychess::search::{
    HistoryEntry, SearchCommand, SearchInformation, SearchMode, SearchParams, SearchRefs,
    SearchState, SearchSummary, SearchTerminate, SearchWorker,
};
use kychess::table::TranspositionTable;
use kychess::uci::{GameTime, UciControl, UciReport, START_POSITION};
use kychess::Information;

const MS: u64 = 1_000_000;

fn mv(from: u8, to: u8) -> Move {
    Move { from, to, promotion: None }
}

fn heard(report: UciReport) -> EngineAction {
    react(Information::UciInformation(report))
}

fn started(action: EngineAction) -> SearchParams {
    match action {
        EngineAction::Tell(SearchCommand::Start(params)) => params,
        other => panic!("{:?}", other),
    }
}

#[test]
fn the_front_end_is_answered() {
    assert!(matches!(heard(UciReport::Uci), EngineAction::Say(UciControl::Identify)));
    assert!(matches!(heard(UciReport::IsReady), EngineAction::Say(UciControl::Ready)));
    assert!(matches!(heard(UciReport::Debug(true)), EngineAction::SetDebug(true)));
    assert!(matches!(heard(UciReport::Debug(false)), EngineAction::SetDebug(false)));
    assert!(matches!(heard(UciReport::UciNewGame), EngineAction::NewGame));
    assert!(matches!(heard(UciReport::Quit), EngineAction::Quit));
    assert!(matches!(heard(UciReport::Unknown), EngineAction::Nothing));
    assert!(matches!(heard(UciReport::Stop), EngineAction::Tell(SearchCommand::Stop)));
}

#[test]
fn a_position_is_passed_on() {
    let moves = vec![mv(12, 28), mv(52, 36)];
    match heard(UciReport::Position(START_POSITION.to_string(), moves.clone())) {
        EngineAction::SetPosition(fen, passed) => {
            assert_eq!(fen, START_POSITION);
            assert_eq!(passed, moves);
        }
        other => panic!("{:?}", other),
    }
}

#[test]
fn go_starts_a_search() {
    let infinite = started(heard(UciReport::GoInfinite));
    assert_eq!(
        infinite,
        SearchParams { search_mode: SearchMode::Infinite, move_time: 0, game_time: GameTime::default() }
    );
    let clocks = GameTime { wtime: Some(5), btime: Some(6), winc: None, binc: None, mtg: Some(3) };
    let on_the_clock = started(heard(UciReport::GoGameTime(clocks)));
    assert_eq!(
        on_the_clock,
        SearchParams { search_mode: SearchMode::GameTime, move_time: 0, game_time: clocks }
    );
}

#[test]
fn a_fixed_time_is_cut_by_the_overhead() {
    let params = started(heard(UciReport::GoMoveTime(100 * MS)));
    assert_eq!(params.search_mode, SearchMode::MoveTime);
    assert_eq!(params.move_time, 50 * MS);
    assert_eq!(params.game_time, GameTime::default());
    assert_eq!(started(heard(UciReport::GoMoveTime(50 * MS))).move_time, 0);
    assert_eq!(started(heard(UciReport::GoMoveTime(50 * MS + 1))).move_time, 1);
    assert_eq!(started(heard(UciReport::GoMoveTime(20 * MS))).move_time, 0);
    assert_eq!(started(heard(UciReport::GoMoveTime(0))).move_time, 0);
    assert_eq!(started(heard(UciReport::GoMoveTime(u64::MAX))).move_time, u64::MAX - 50 * MS);
}

#[test]
fn what_the_search_found_is_said() {
    let best = react(Information::SearchInformation(SearchInformation::BestMove(mv(12, 28))));
    assert!(matches!(best, EngineAction::Say(UciControl::BestMove(m)) if m == mv(12, 28)));
    let summary = SearchSummary {
        depth: 3,
        seldepth: 5,
        time: 7,
        cp: -12,
        nodes: 99,
        nps: 1000,
        pv: vec![mv(1, 18)],
    };
    match react(Information::SearchInformation(SearchInformation::Summary(summary.clone()))) {
        EngineAction::Say(UciControl::SearchSummary(said)) => assert_eq!(said, summary),
        other => panic!("{:?}", other),
    }
    match react(Information::SearchInformation(SearchInformation::ExtraInfo("hello".to_string()))) {
        EngineAction::Say(UciControl::Info(text)) => assert_eq!(text, "hello"),
        other => panic!("{:?}", other),
    }
}

#[test]
fn a_position_is_set_up_and_played() {
    let (board, history) = set_position(START_POSITION, &Vec::new()).unwrap();
    assert_eq!(board.board(), Board::default());
    assert!(history.is_empty());
    let moves = vec![mv(12, 28), mv(52, 36), mv(6, 21), mv(57, 42)];
    let (board, history) = set_position(START_POSITION, &moves).unwrap();
    let expected =
        Board::from_str("r1bqkbnr/pppp1ppp/2n5/4p3/4P3/5N2/PPPP1PPP/RNBQKB1R w KQkq - 2 3").unwrap();
    assert_eq!(board.board(), expected);
    let e4 = Board::default().make_move_new(ChessMove::new(Square::E2, Square::E4, None));
    assert_eq!(
        history,
        vec![
            HistoryEntry { hash: e4.get_hash(), is_reversible_move: false },
            HistoryEntry {
                hash: e4.make_move_new(ChessMove::new(Square::E7, Square::E5, None)).get_hash(),
                is_reversible_move: false
            },
            HistoryEntry {
                hash: expected
                    .null_move()
                    .map(|_| {
                        e4.make_move_new(ChessMove::new(Square::E7, Square::E5, None))
                            .make_move_new(ChessMove::new(Square::G1, Square::F3, None))
                            .get_hash()
                    })
                    .unwrap(),
                is_reversible_move: true
            },
            HistoryEntry { hash: expected.get_hash(), is_reversible_move: true },
        ]
    );
}

#[test]
fn captures_and_promotions_are_played() {
    let fen = "4k3/7P/8/3q4/8/2N5/8/4K3 w - - 0 1";
    let promotion = Move { from: 55, to: 63, promotion: Some(Piece::Queen) };
    let (board, history) = set_position(fen, &vec![mv(18, 35), mv(60, 61), promotion]).unwrap();
    assert_eq!(board.board(), Board::from_str("5k1Q/8/8/3N4/8/8/8/4K3 b - - 0 2").unwrap());
    let flags: Vec<bool> = history.iter().map(|entry| entry.is_reversible_move).collect();
    assert_eq!(flags, vec![false, true, false]);
    let knight = Move { from: 55, to: 63, promotion: Some(Piece::Knight) };
    let (board, _) = set_position("4k3/7P/8/8/8/8/8/4K3 w - - 0 1", &vec![knight]).unwrap();
    assert_eq!(board.board(), Board::from_str("4k2N/8/8/8/8/8/8/4K3 b - - 0 1").unwrap());
}

#[test]
fn what_cannot_be_set_up_is_refused() {
    assert!(set_position("not a position", &Vec::new()).is_none());
    assert!(set_position("", &Vec::new()).is_none());
    assert!(set_position("8/8/8/8/8/8/8/8 w - - 0 1", &Vec::new()).is_none());
    assert!(set_position("4k3/8/8/8/8/8/8/8 w - - 0 1", &Vec::new()).is_none());
    assert!(set_position("8/8/8/8/8/8/8/4K3 b - - 0 1", &Vec::new()).is_none());
    assert!(set_position("8/8/8/8/8/8/8/8 w Kk - 0 1", &Vec::new()).is_none());
    assert!(set_position("4k3/8/8/8/8/8/8/3KK3 w - - 0 1", &Vec::new()).is_none());
    assert!(set_position("4k3/8/8/8/8/8/8/4K3", &Vec::new()).is_none());
    assert!(set_position("4k3/8/8/8/8/8/8/4K3 x - - 0 1", &Vec::new()).is_none());
    assert!(set_position("4k3/8/8/8/8/8/8/4K3 w - - 0 1", &Vec::new()).is_some());
    assert!(set_position(START_POSITION, &vec![mv(12, 36)]).is_none());
    assert!(set_position(START_POSITION, &vec![mv(12, 28), mv(12, 28)]).is_none());
    assert!(set_position(START_POSITION, &vec![mv(12, 28), mv(52, 36), mv(70, 3)]).is_none());
    let unpromoted = set_position("4k3/7P/8/8/8/8/8/4K3 w - - 0 1", &vec![mv(55, 63)]);
    assert!(unpromoted.is_none());
}

#[test]
fn from_the_start_position_a_tenth_of_a_second_gives_a_legal_move() {
    let (control_tx, control_rx) = crossbeam_channel::unbounded::<SearchCommand>();
    let (report_tx, report_rx) = crossbeam_channel::unbounded::<Information>();
    let (position, history) = set_position(START_POSITION, &Vec::new()).unwrap();
    let command = match heard(UciReport::GoMoveTime(100 * MS)) {
        EngineAction::Tell(command) => command,
        other => panic!("{:?}", other),
    };
    let mut worker = SearchWorker::new();
    let params = worker.receive(command).unwrap();
    let mut refs = SearchRefs {
        board: position,
        search_params: &params,
        search_state: SearchState::new(),
        control_rx: &control_rx,
        report_tx: &report_tx,
        history,
    };
    let mut table = TranspositionTable::new(1 << 16).unwrap();
    let began = std::time::Instant::now();
    let outcome = worker.search(&mut refs, &mut table).unwrap();
    let took = began.elapsed();
    assert!(took < std::time::Duration::from_millis(100 + 400), "took {:?}", took);
    assert_eq!(outcome.terminate, SearchTerminate::Stop);
    // The move can be played.
    let best = outcome.best_move.unwrap();
    assert!(position.play(best).is_some());
    // The first thing reported is the summary of depth one, the last the move.
    let reported: Vec<Information> = report_rx.try_iter().collect();
    match reported.first() {
        Some(Information::SearchInformation(SearchInformation::Summary(summary))) => {
            assert_eq!(summary.depth, 1);
        }
        other => panic!("{:?}", other),
    }
    match react(reported.into_iter().last().unwrap()) {
        EngineAction::Say(UciControl::BestMove(said)) => assert_eq!(said, best),
        other => panic!("{:?}", other),
    }
    drop(control_tx);
}

#[test]
fn a_game_in_progress_is_searched_from_where_it_stands() {
    let (_control_tx, control_rx) = crossbeam_channel::unbounded::<SearchCommand>();
    let (report_tx, _report_rx) = crossbeam_channel::unbounded::<Information>();
    // Fool's mate is on the board: Black mates with the queen.
    let moves = vec![mv(13, 21), mv(52, 36), mv(14, 30)];
    let (position, history) = set_position(START_POSITION, &moves).unwrap();
    assert_eq!(history.len(), 3);
    let params = SearchParams {
        search_mode: SearchMode::MoveTime,
        move_time: 0,
        game_time: GameTime::default(),
    };
    let mut refs = SearchRefs {
        board: position,
        search_params: &params,
        search_state: SearchState::new(),
        control_rx: &control_rx,
        report_tx: &report_tx,
        history,
    };
    let mut worker = SearchWorker::new();
    worker.receive(SearchCommand::Start(params));
    let mut table = TranspositionTable::new(1 << 12).unwrap();
    let outcome = worker.search(&mut refs, &mut table).unwrap();
    assert_eq!(outcome.best_move, Some(mv(59, 31)));
    assert_eq!(outcome.summaries[0].cp, 9999);
    assert_eq!(refs.history.len(), 3);
}
