use crossbeam_channel::unbounded;
use kychess::board::{captures, irreversible, Move, Position};
use kychess::draw::is_draw;
use kychess::evaluation::evaluate_position;
use kychess::search::{
    negamax, quiescence, search_root, HistoryEntry, SearchCommand, SearchMode, SearchParams,
    SearchRefs, SearchState,
};
use kychess::table::TranspositionTable;
use kychess::uci::GameTime;
use kychess::Information;

const FENS: [&str; 9] = [
    "rnbqkbnr/pppppppp/8/8/8/8/PPPPPPPP/RNBQKBNR w KQkq - 0 1",
    "6k1/5ppp/8/8/8/8/8/R3K3 w - - 0 1",
    "4k3/8/8/3q4/8/2N5/7P/4K3 w - - 0 1",
    "8/2p5/3p4/KP5r/1R3p1k/8/4P1P1/8 w - - 0 1",
    "4k3/8/8/8/8/8/8/4K2Q b - - 0 1",
    "4k3/8/3p4/4P3/8/8/8/4K3 w - - 0 1",
    "r3k3/8/8/8/8/8/8/R3K3 w - - 0 1",
    "4k3/8/8/2b5/3N4/8/8/4K3 b - - 0 1",
    "rnb1kbnr/pppp1ppp/8/4p3/6Pq/5P2/PPPPP2P/RNBQKBNR w KQkq - 1 3",
];

/// The worth of a position in the capture search, with no pruning at all.
fn capture_value(position: &Position, ply: u8) -> i32 {
    let stand_pat = evaluate_position(position);
    if ply >= 200 {
        return stand_pat;
    }
    let placement = position.placement();
    let mover = position.side_to_move();
    let mut best = stand_pat;
    for mv in position.legal_moves() {
        if captures(&placement, mover, mv) {
            let reply = -capture_value(&position.play(mv).unwrap(), ply + 1);
            best = best.max(reply);
        }
    }
    best
}

/// The worth of a position, with no pruning at all.
fn value(position: &Position, history: &mut Vec<HistoryEntry>, depth: i32, ply: u8) -> i32 {
    if ply >= 200 {
        return evaluate_position(position);
    }
    let remaining = if position.in_check() { depth + 1 } else { depth };
    if remaining <= 0 {
        return capture_value(position, ply);
    }
    let moves = position.legal_moves();
    if moves.is_empty() {
        return if position.in_check() { -10000 + ply as i32 } else { 0 };
    }
    let placement = position.placement();
    let mut best = i32::MIN;
    for mv in moves {
        let reached = position.play(mv).unwrap();
        history.push(HistoryEntry {
            hash: reached.hash(),
            is_reversible_move: !irreversible(&placement, mv),
        });
        let reply = if is_draw(&reached.placement(), history, reached.hash()) {
            0
        } else {
            -value(&reached, history, remaining - 1, ply + 1)
        };
        history.pop();
        best = best.max(reply);
    }
    best
}

fn searched(
    position: Position,
    history: &[HistoryEntry],
    depth: u8,
    alpha: i32,
    beta: i32,
) -> (i32, Vec<Move>) {
    let (_control_tx, control_rx) = unbounded::<SearchCommand>();
    let (report_tx, _report_rx) = unbounded::<Information>();
    let params = SearchParams {
        search_mode: SearchMode::Infinite,
        move_time: 0,
        game_time: GameTime::default(),
    };
    let mut refs = SearchRefs {
        board: position,
        search_params: &params,
        search_state: SearchState::new(),
        control_rx: &control_rx,
        report_tx: &report_tx,
        history: history.to_vec(),
    };
    let mut table = TranspositionTable::disabled();
    let mut pv = Vec::new();
    let score = if depth == 0 && !position.in_check() {
        quiescence(alpha, beta, &mut pv, &mut refs)
    } else {
        negamax(&mut refs, &mut table, &mut pv, depth, alpha, beta)
    };
    (score, pv)
}

#[test]
fn the_capture_search_finds_the_unpruned_value() {
    for fen in FENS {
        let position = Position::from_fen(fen).unwrap();
        let expected = capture_value(&position, 0);
        for (alpha, beta) in [(-10000, 10000), (-50, 50), (0, 1), (-1, 0), (300, 9000)] {
            let (score, _) = searched(position, &[], 0, alpha, beta);
            if position.in_check() && position.legal_moves().is_empty() {
                continue;
            }
            if !position.in_check() {
                assert_eq!(score, expected.clamp(alpha, beta), "{} in {}..{}", fen, alpha, beta);
            }
        }
    }
}

#[test]
fn the_search_without_a_table_finds_the_unpruned_value() {
    for fen in FENS {
        let position = Position::from_fen(fen).unwrap();
        for depth in 1..=2u8 {
            let expected = value(&position, &mut Vec::new(), depth as i32, 0);
            let (score, pv) = searched(position, &[], depth, -10000, 10000);
            assert_eq!(score, expected.clamp(-10000, 10000), "{} at depth {}", fen, depth);
            if -10000 < score && score < 10000 && !position.legal_moves().is_empty() {
                // The first move of the line is one that is worth the score.
                let reached = position.play(pv[0]).unwrap();
                let mut history = vec![HistoryEntry {
                    hash: reached.hash(),
                    is_reversible_move: !irreversible(&position.placement(), pv[0]),
                }];
                let remaining = if position.in_check() { depth as i32 + 1 } else { depth as i32 };
                let reply = if is_draw(&reached.placement(), &history, reached.hash()) {
                    0
                } else {
                    -value(&reached, &mut history, remaining - 1, 1)
                };
                assert_eq!(reply, score, "{} at depth {}", fen, depth);
            }
        }
    }
}

#[test]
fn a_narrow_window_pulls_the_value_in() {
    for fen in FENS {
        let position = Position::from_fen(fen).unwrap();
        if position.legal_moves().is_empty() {
            continue;
        }
        let expected = value(&position, &mut Vec::new(), 2, 0);
        for (alpha, beta) in [(-50, 50), (0, 1), (-1, 0), (-9999, -9000), (100, 9000), (-400, -300)] {
            let (score, _) = searched(position, &[], 2, alpha, beta);
            assert_eq!(score, expected.clamp(alpha, beta), "{} in {}..{}", fen, alpha, beta);
        }
    }
}

#[test]
fn the_history_counts_in_the_value() {
    let position = Position::from_fen("4k3/8/8/8/8/8/8/4K2Q b - - 0 1").unwrap();
    let repeated = position.play(Move { from: 60, to: 59, promotion: None }).unwrap();
    let seen = HistoryEntry { hash: repeated.hash(), is_reversible_move: true };
    let history = vec![seen, seen];
    let expected = value(&position, &mut history.clone(), 2, 0);
    assert_eq!(expected, 0);
    assert_eq!(searched(position, &history, 2, -10000, 10000).0, 0);
    assert!(searched(position, &[], 2, -10000, 10000).0 < -800);
    assert_eq!(searched(position, &[], 2, -10000, 10000).0, value(&position, &mut Vec::new(), 2, 0));
}

#[test]
fn a_deep_search_with_the_table_may_differ() {
    // The table answers for a position whatever line led to it and however
    // deep it was searched: at depth 8 this ending is scored differently.
    let position = Position::from_fen("8/8/4k3/8/8/4K3/4P3/8 w - - 0 1").unwrap();
    let (reference, line) = searched(position, &[], 8, -10000, 10000);
    let (_control_tx, control_rx) = unbounded::<SearchCommand>();
    let (report_tx, _report_rx) = unbounded::<Information>();
    let params = SearchParams {
        search_mode: SearchMode::Infinite,
        move_time: 0,
        game_time: GameTime::default(),
    };
    let mut refs = SearchRefs {
        board: position,
        search_params: &params,
        search_state: SearchState::new(),
        control_rx: &control_rx,
        report_tx: &report_tx,
        history: Vec::new(),
    };
    let mut table = TranspositionTable::new(1 << 16).unwrap();
    let mut pv = Vec::new();
    let score = negamax(&mut refs, &mut table, &mut pv, 8, -10000, 10000);
    assert_eq!(reference, 135);
    assert_eq!(line[0], Move { from: 20, to: 19, promotion: None });
    assert_eq!(score, 140);
    assert_eq!(pv[0], Move { from: 20, to: 27, promotion: None });
}

#[test]
fn the_root_search_finds_the_unpruned_value() {
    for fen in FENS {
        let position = Position::from_fen(fen).unwrap();
        for depth in 1..=2u8 {
            let expected = value(&position, &mut Vec::new(), depth as i32, 0);
            let (best, score) = search_root(&position, depth);
            assert_eq!(score, expected.clamp(-10000, 10000), "{} at depth {}", fen, depth);
            assert_eq!((best, score), {
                let (score, pv) = searched(position, &[], depth, -10000, 10000);
                (pv.first().copied(), score)
            });
            match best {
                Some(mv) => assert!(position.play(mv).is_some()),
                None => assert!(position.legal_moves().is_empty()),
            }
        }
    }
}

#[test]
fn the_root_search_finds_a_mate_in_one() {
    let white = Position::from_fen("6k1/5ppp/8/8/8/8/8/R3K3 w - - 0 1").unwrap();
    assert_eq!(search_root(&white, 1), (Some(Move { from: 0, to: 56, promotion: None }), 9999));
    assert_eq!(search_root(&white, 3), (Some(Move { from: 0, to: 56, promotion: None }), 9999));
    let black = Position::from_fen("r3k3/8/8/8/8/8/5PPP/6K1 b - - 0 1").unwrap();
    assert_eq!(search_root(&black, 2), (Some(Move { from: 56, to: 0, promotion: None }), 9999));
    let mated = Position::from_fen("R5k1/5ppp/8/8/8/8/8/4K3 b - - 0 1").unwrap();
    assert_eq!(search_root(&mated, 4), (None, -10000));
    let stalemate = Position::from_fen("7k/5Q2/6K1/8/8/8/8/8 b - - 0 1").unwrap();
    assert_eq!(search_root(&stalemate, 4), (None, 0));
}

#[test]
fn the_root_search_finds_a_mate_in_two() {
    // One rook cuts the king off, the other mates.
    let position = Position::from_fen("7k/8/8/8/8/8/R7/1R5K w - - 0 1").unwrap();
    let (best, score) = search_root(&position, 3);
    assert_eq!(score, 9997);
    // More than one move mates in two; the one found does.
    let reached = position.play(best.unwrap()).unwrap();
    assert_eq!(search_root(&reached, 2).1, -9998);
    assert_eq!(value(&position, &mut Vec::new(), 3, 0), 9997);
}

#[test]
fn a_capture_in_passing_out_of_check_is_never_searched() {
    // The generator offers e5xd6 though White is in check; after it the
    // knight could take the king.
    for fen in ["7k/8/8/3pP3/8/2n5/8/1K6 w - d6 0 1", "7k/8/3N4/2KpP3/8/8/8/8 w - d6 0 1"] {
        let position = Position::from_fen(fen).unwrap();
        for depth in 1..=3u8 {
            let (best, score) = search_root(&position, depth);
            assert_ne!(best, Some(Move { from: 36, to: 43, promotion: None }));
            assert!(position.play(best.unwrap()).is_some());
            assert_eq!(score, value(&position, &mut Vec::new(), depth as i32, 0).clamp(-10000, 10000));
            let (with_table, line) = {
                let (_control_tx, control_rx) = unbounded::<SearchCommand>();
                let (report_tx, _report_rx) = unbounded::<Information>();
                let params = SearchParams {
                    search_mode: SearchMode::Infinite,
                    move_time: 0,
                    game_time: GameTime::default(),
                };
                let mut refs = SearchRefs {
                    board: position,
                    search_params: &params,
                    search_state: SearchState::new(),
                    control_rx: &control_rx,
                    report_tx: &report_tx,
                    history: Vec::new(),
                };
                let mut table = TranspositionTable::new(1 << 10).unwrap();
                let mut pv = Vec::new();
                let score = negamax(&mut refs, &mut table, &mut pv, depth, -10000, 10000);
                (score, pv)
            };
            assert!((-10000..=10000).contains(&with_table));
            assert!(position.play(line[0]).is_some());
        }
    }
}
