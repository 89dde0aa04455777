use std::str::FromStr;

use chess::{Board, ChessMove, Color as ChessColor, Piece as ChessPiece, Square};
use kychess::board::{
    captures, fits, has_king, irreversible, playable_line, BoardStatus, Color, Move, Occupant,
    Piece, Placement, Position,
};

const START: &str = "rnbqkbnr/pppppppp/8/8/8/8/PPPPPPPP/RNBQKBNR w KQkq - 0 1";

fn mv(from: u8, to: u8) -> Move {
    Move { from, to, promotion: None }
}

#[test]
fn a_placement_is_built_square_by_square() {
    let rook = Some(Occupant { piece: Piece::Rook, color: Color::Black });
    let placement = Placement::empty().with(63, rook).with(0, rook).with(0, None);
    assert_eq!(placement.at(63), rook);
    assert_eq!(placement.at(0), None);
    assert_eq!(placement.at(62), None);
    assert_eq!(placement.squares.len(), 64);
}

#[test]
fn a_position_is_read_from_text() {
    let start = Position::from_fen(START).unwrap();
    assert_eq!(start.board(), Board::default());
    assert_eq!(start.side_to_move(), Color::White);
    assert!(!start.in_check());
    assert_eq!(start.status(), BoardStatus::Ongoing);
    assert_eq!(start.legal_moves().len(), 20);
    assert_eq!(start.hash(), Board::default().get_hash());
    let black = Position::from_fen("rnbqkbnr/pppppppp/8/8/4P3/8/PPPP1PPP/RNBQKBNR b KQkq e3 0 1")
        .unwrap();
    assert_eq!(black.side_to_move(), Color::Black);
    assert_ne!(black.hash(), start.hash());
}

#[test]
fn text_that_is_no_position_is_refused() {
    assert!(Position::from_fen("").is_none());
    assert!(Position::from_fen("hello").is_none());
    assert!(Position::from_fen("8/8/8/8/8/8/8/8 w - - 0 1").is_none());
    assert!(Position::from_fen("4k3/8/8/8/8/8/8/8 w - - 0 1").is_none());
    assert!(Position::from_fen("8/8/8/8/8/8/8/4K3 b - - 0 1").is_none());
    assert!(Position::from_fen("8/8/8/8/8/8/8/8 w Kk - 0 1").is_none());
    assert!(Position::from_fen(" 4k3/8/8/8/8/8/8/4K3 w - - 0 1").is_none());
    // The side that has moved stands in check.
    assert!(Position::from_fen("4k3/8/8/8/8/8/8/4K2r b - - 0 1").is_none());
    // The kings touch.
    assert!(Position::from_fen("8/8/8/8/8/8/4k3/4K3 w - - 0 1").is_none());
}

#[test]
fn a_side_has_at_most_sixteen_men() {
    assert!(Position::new(Board::from_str(START).unwrap()).is_some());
    let seventeen = "rnbqkbnr/pppppppp/8/8/4Q3/8/PPPPPPPP/RNBQKBNR w KQkq - 0 1";
    assert!(Board::from_str(seventeen).is_ok());
    assert!(Position::from_fen(seventeen).is_none());
    assert!(Position::new(Board::from_str(seventeen).unwrap()).is_none());
    let black = "rnbqkbnr/pppppppp/8/4q3/8/8/PPPPPPPP/RNBQKBNR b KQkq - 0 1";
    assert!(Board::from_str(black).is_ok());
    assert!(Position::from_fen(black).is_none());
    let queens = "k7/8/8/8/8/8/1QQQQQ1Q/1QQQQQQK w - - 0 1";
    assert!(Position::from_fen(queens).is_some());
}

#[test]
#[allow(deprecated)]
fn a_board_that_is_not_sane_is_no_position() {
    let two_kings = Board::default().set_piece(ChessPiece::King, ChessColor::White, Square::E4);
    assert!(!two_kings.unwrap().is_sane());
    assert!(Position::new(two_kings.unwrap()).is_none());
    let crowded = Board::default().set_piece(ChessPiece::Pawn, ChessColor::White, Square::E4);
    assert!(Position::new(crowded.unwrap()).is_none());
    assert!(Position::new(Board::default()).is_some());
    let placement = Placement::from_board(&Position::new(Board::default()).unwrap());
    assert_eq!(placement.at(4), Some(Occupant { piece: Piece::King, color: Color::White }));
    assert_eq!(placement.at(3), Some(Occupant { piece: Piece::Queen, color: Color::White }));
}

#[test]
fn a_king_written_over_is_no_king() {
    // The first rank written runs over into nine squares: the crate would
    // put the queen where the king stands.
    assert!(Position::from_fen("Kpppppppq/8/8/8/8/8/8/k7 w - - 0 1").is_none());
    assert!(!fits("Kpppppppq/8/8/8/8/8/8/k7 w - - 0 1"));
    assert!(!fits("8/8/8/8/8/8/8/8/8 w - - 0 1"));
    assert!(!fits("44p/8/8/8/8/8/8/8 w"));
    assert!(!fits("ppppppppp"));
    assert!(!fits("7pp"));
    assert!(!fits("81"));
    assert!(fits("8/8/8/8/8/8/8/8 w - - 0 1"));
    assert!(fits("rnbqkbnr/pppppppp/8/8/8/8/PPPPPPPP/RNBQKBNR w KQkq - 0 1"));
    assert!(fits("7p/p7/3p4"));
    assert!(fits(""));
    assert!(fits(" ppppppppppppp"));
}

#[test]
fn a_capture_in_passing_that_leaves_the_king_in_check_is_no_move() {
    // White is in check by the knight; the generator still gives e5xd6.
    let checked = Position::from_fen("7k/8/8/3pP3/8/2n5/8/1K6 w - d6 0 1").unwrap();
    let generated: Vec<ChessMove> = chess::MoveGen::new_legal(&checked.board()).collect();
    assert!(generated.contains(&ChessMove::new(Square::E5, Square::D6, None)));
    let moves = checked.legal_moves();
    assert!(!moves.contains(&mv(36, 43)));
    assert_eq!(moves.len(), generated.len() - 1);
    assert!(checked.play(mv(36, 43)).is_none());
    for step in moves {
        assert!(checked.play(step).unwrap().board().is_sane());
    }
    // The generator gives a capture in passing onto the knight's square.
    let blocked = Position::from_fen("7k/8/3N4/2KpP3/8/8/8/8 w - d6 0 1").unwrap();
    for step in blocked.legal_moves() {
        assert!(blocked.play(step).unwrap().board().is_sane());
    }
    assert!(blocked.play(mv(36, 43)).is_none());
    assert_eq!(checked.status(), BoardStatus::Ongoing);
}

#[test]
fn the_first_field_names_the_kings() {
    assert!(has_king(START, 'K'));
    assert!(has_king(START, 'k'));
    assert!(!has_king(START, 'x'));
    assert!(!has_king("8/8/8/8/8/8/8/8 w Kk - 0 1", 'K'));
    assert!(!has_king("", 'K'));
    assert!(!has_king(" K", 'K'));
    assert!(has_king("K", 'K'));
    assert!(has_king("4k3/8/8/8/8/8/8/4K3", 'K'));
}

#[test]
fn check_mate_and_stalemate_are_told_apart() {
    let check = Position::from_fen("4k3/8/8/8/8/8/8/4K2r w - - 0 1").unwrap();
    assert!(check.in_check());
    assert_eq!(check.status(), BoardStatus::Ongoing);
    let mate = Position::from_fen("R5k1/5ppp/8/8/8/8/8/4K3 b - - 0 1").unwrap();
    assert!(mate.in_check());
    assert_eq!(mate.status(), BoardStatus::Checkmate);
    assert!(mate.legal_moves().is_empty());
    let stalemate = Position::from_fen("7k/5Q2/6K1/8/8/8/8/8 b - - 0 1").unwrap();
    assert!(!stalemate.in_check());
    assert_eq!(stalemate.status(), BoardStatus::Stalemate);
    assert!(stalemate.legal_moves().is_empty());
}

#[test]
fn legal_moves_come_in_the_generators_order() {
    let position = Position::from_fen("4k3/7P/8/8/8/8/8/4K3 w - - 0 1").unwrap();
    let expected: Vec<Move> = chess::MoveGen::new_legal(&position.board())
        .map(|m| Move {
            from: m.get_source().to_int(),
            to: m.get_dest().to_int(),
            promotion: m.get_promotion().map(|p| match p {
                ChessPiece::Queen => Piece::Queen,
                ChessPiece::Rook => Piece::Rook,
                ChessPiece::Bishop => Piece::Bishop,
                ChessPiece::Knight => Piece::Knight,
                ChessPiece::Pawn => Piece::Pawn,
                ChessPiece::King => Piece::King,
            }),
        })
        .collect();
    let moves = position.legal_moves();
    assert_eq!(moves, expected);
    assert_eq!(moves.len(), 9);
    for piece in [Piece::Queen, Piece::Rook, Piece::Bishop, Piece::Knight] {
        assert!(moves.contains(&Move { from: 55, to: 63, promotion: Some(piece) }));
    }
    assert!(moves.contains(&mv(4, 12)));
}

#[test]
fn a_legal_move_is_played() {
    let start = Position::from_fen(START).unwrap();
    let after = start.play(mv(12, 28)).unwrap();
    assert_eq!(
        after.board(),
        Board::default().make_move_new(ChessMove::new(Square::E2, Square::E4, None))
    );
    assert_eq!(after.side_to_move(), Color::Black);
    assert_eq!(after.placement().at(28), Some(Occupant { piece: Piece::Pawn, color: Color::White }));
    assert_eq!(after.placement().at(12), None);
    assert_eq!(after.board().color_on(Square::E4), Some(ChessColor::White));
    let promoted = Position::from_fen("4k3/7P/8/8/8/8/8/4K3 w - - 0 1")
        .unwrap()
        .play(Move { from: 55, to: 63, promotion: Some(Piece::Rook) })
        .unwrap();
    assert_eq!(promoted.board().piece_on(Square::H8), Some(ChessPiece::Rook));
    assert!(promoted.in_check());
}

#[test]
fn a_move_that_is_not_legal_is_not_played() {
    let start = Position::from_fen(START).unwrap();
    assert!(start.play(mv(12, 36)).is_none());
    assert!(start.play(mv(52, 36)).is_none());
    assert!(start.play(mv(200, 3)).is_none());
    assert!(start.play(Move { from: 12, to: 28, promotion: Some(Piece::Queen) }).is_none());
}

#[test]
fn captures_and_pawn_moves_cannot_be_taken_back() {
    let placement = Position::from_fen("4k3/8/8/3q4/8/2N5/7P/4K3 w - - 0 1").unwrap().placement();
    assert!(captures(&placement, Color::White, mv(18, 35)));
    assert!(!captures(&placement, Color::Black, mv(18, 35)));
    assert!(!captures(&placement, Color::White, mv(18, 28)));
    assert!(!captures(&placement, Color::White, mv(18, 15)));
    assert!(captures(&placement, Color::Black, mv(35, 15)));
    assert!(irreversible(&placement, mv(18, 35)));
    assert!(irreversible(&placement, mv(15, 23)));
    assert!(irreversible(&placement, mv(15, 31)));
    assert!(!irreversible(&placement, mv(18, 28)));
    assert!(!irreversible(&placement, mv(4, 5)));
    assert!(irreversible(&placement, mv(35, 15)));
}

#[test]
fn a_line_is_played_move_by_move() {
    let start = Position::from_fen(START).unwrap();
    assert!(playable_line(&start, &Vec::new()));
    assert!(playable_line(&start, &vec![mv(12, 28), mv(52, 36), mv(6, 21)]));
    assert!(!playable_line(&start, &vec![mv(12, 28), mv(12, 28)]));
    assert!(!playable_line(&start, &vec![mv(52, 36)]));
}
