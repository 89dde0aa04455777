use kychess::board::Move;
use kychess::uci::{
    go_report, position_report, score_report, GameTime, Score, TimeControl, UciReport,
    START_POSITION,
};

#[test]
fn scores_near_zero_are_centipawns() {
    assert_eq!(score_report(0), Score::Centipawns(0));
    assert_eq!(score_report(37), Score::Centipawns(37));
    assert_eq!(score_report(-895), Score::Centipawns(-895));
    assert_eq!(score_report(5000), Score::Centipawns(5000));
    assert_eq!(score_report(-5000), Score::Centipawns(-5000));
}

#[test]
fn mate_scores_count_moves() {
    // Mate delivered one ply from the root: mate in one.
    assert_eq!(score_report(9999), Score::Mate(1));
    assert_eq!(score_report(9998), Score::Mate(1));
    assert_eq!(score_report(9997), Score::Mate(2));
    assert_eq!(score_report(9996), Score::Mate(2));
    assert_eq!(score_report(9995), Score::Mate(3));
    assert_eq!(score_report(-9999), Score::Mate(-1));
    assert_eq!(score_report(-9998), Score::Mate(-1));
    assert_eq!(score_report(-9997), Score::Mate(-2));
    assert_eq!(score_report(10000), Score::Mate(0));
    assert_eq!(score_report(-10000), Score::Mate(0));
    assert_eq!(score_report(9800), Score::Mate(100));
}

#[test]
fn a_mate_too_far_off_is_the_farthest_one() {
    assert_eq!(score_report(10000 - 254), Score::Mate(127));
    assert_eq!(score_report(10000 - 255), Score::Mate(127));
    assert_eq!(score_report(5001), Score::Mate(127));
    assert_eq!(score_report(-10000 + 256), Score::Mate(-128));
    assert_eq!(score_report(-10000 + 257), Score::Mate(-128));
    assert_eq!(score_report(-5001), Score::Mate(-128));
}

#[test]
fn go_becomes_a_report() {
    let game_time =
        GameTime { wtime: Some(1), btime: Some(2), winc: None, binc: Some(3), mtg: Some(4) };
    assert_eq!(go_report(Some(TimeControl::Infinite), false), UciReport::GoInfinite);
    assert_eq!(go_report(Some(TimeControl::MoveTime(77)), false), UciReport::GoMoveTime(77));
    assert_eq!(
        go_report(Some(TimeControl::TimeLeft(game_time)), false),
        UciReport::GoGameTime(game_time)
    );
}

#[test]
fn what_is_not_understood_is_unknown() {
    assert_eq!(go_report(Some(TimeControl::Ponder), false), UciReport::Unknown);
    assert_eq!(go_report(None, false), UciReport::Unknown);
    assert_eq!(go_report(None, true), UciReport::Unknown);
    assert_eq!(go_report(Some(TimeControl::Infinite), true), UciReport::Unknown);
    assert_eq!(position_report(false, None, Vec::new()), UciReport::Unknown);
}

#[test]
fn position_becomes_a_report() {
    let moves = vec![Move { from: 12, to: 28, promotion: None }];
    assert_eq!(
        position_report(true, None, moves.clone()),
        UciReport::Position(
            "rnbqkbnr/pppppppp/8/8/8/8/PPPPPPPP/RNBQKBNR w KQkq - 0 1".to_string(),
            moves.clone()
        )
    );
    assert_eq!(
        position_report(true, Some("8/8/8/8/8/8/8/8 w - - 0 1".to_string()), Vec::new()),
        UciReport::Position(START_POSITION.to_string(), Vec::new())
    );
    assert_eq!(
        position_report(false, Some("4k3/8/8/8/8/8/8/4K3 w - - 0 1".to_string()), moves.clone()),
        UciReport::Position("4k3/8/8/8/8/8/8/4K3 w - - 0 1".to_string(), moves)
    );
}

#[test]
fn no_clocks_by_default() {
    assert_eq!(
        GameTime::default(),
        GameTime { wtime: None, btime: None, winc: None, binc: None, mtg: None }
    );
}
