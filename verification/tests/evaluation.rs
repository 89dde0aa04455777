use kychess::board::{BoardStatus, Color, Occupant, Piece, Placement, Position};
use kychess::evaluation::{
    count_pieces, evaluate, evaluate_position, is_endgame, material, piece_square,
};

fn board(fen: &str) -> Position {
    Position::from_fen(fen).unwrap()
}

fn start() -> Position {
    board("rnbqkbnr/pppppppp/8/8/8/8/PPPPPPPP/RNBQKBNR w KQkq - 0 1")
}

fn man(piece: Piece, color: Color) -> Option<Occupant> {
    Some(Occupant { piece, color })
}

#[test]
fn start_position_is_level() {
    assert_eq!(evaluate_position(&start()), 0);
}

#[test]
fn material_values() {
    assert_eq!(material(Piece::Pawn), 100);
    assert_eq!(material(Piece::Knight), 320);
    assert_eq!(material(Piece::Bishop), 330);
    assert_eq!(material(Piece::Rook), 500);
    assert_eq!(material(Piece::Queen), 900);
    assert_eq!(material(Piece::King), 20000);
}

#[test]
fn tables_are_read_back_to_front_for_white() {
    // e4 is square 28: White reads entry 35, Black entry 28.
    assert_eq!(piece_square(Piece::Pawn, Color::White, 28, false), 20);
    assert_eq!(piece_square(Piece::Pawn, Color::Black, 28, false), 25);
    // a1 is square 0, h8 is square 63.
    assert_eq!(piece_square(Piece::King, Color::White, 0, false), 20);
    assert_eq!(piece_square(Piece::King, Color::White, 0, true), -50);
    assert_eq!(piece_square(Piece::King, Color::Black, 63, false), 20);
    assert_eq!(piece_square(Piece::Knight, Color::Black, 0, false), -50);
    assert_eq!(piece_square(Piece::Queen, Color::White, 63 - 32, false), 0);
    assert_eq!(piece_square(Piece::Queen, Color::Black, 39, false), -5);
}

#[test]
fn a_missing_black_queen_counts_for_white() {
    // Black's queen on d8, square 59, is worth 900 - 5.
    let position = board("rnb1kbnr/pppppppp/8/8/8/8/PPPPPPPP/RNBQKBNR w KQkq - 0 1");
    assert_eq!(evaluate_position(&position), 895);
}

#[test]
fn the_score_is_that_of_the_side_to_move() {
    let white = board("rnb1kbnr/pppppppp/8/8/8/8/PPPPPPPP/RNBQKBNR w KQkq - 0 1");
    let black = board("rnb1kbnr/pppppppp/8/8/8/8/PPPPPPPP/RNBQKBNR b KQkq - 0 1");
    assert_eq!(evaluate_position(&white), 895);
    assert_eq!(evaluate_position(&black), -895);
}

#[test]
fn checkmate_is_minus_infinity_for_the_mated_side() {
    let white_mated = board("rnb1kbnr/pppp1ppp/8/4p3/6Pq/5P2/PPPPP2P/RNBQKBNR w KQkq - 1 3");
    assert_eq!(evaluate_position(&white_mated), -10000);
    let black_mated = board("R5k1/5ppp/8/8/8/8/8/4K3 b - - 0 1");
    assert_eq!(evaluate_position(&black_mated), -10000);
}

#[test]
fn stalemate_is_zero() {
    let position = board("7k/5Q2/6K1/8/8/8/8/8 b - - 0 1");
    assert_eq!(evaluate_position(&position), 0);
}

#[test]
fn evaluate_of_a_placement_by_hand() {
    // White king e1, white pawn e4, black king e8: the endgame has come.
    let placement = Placement::empty()
        .with(4, man(Piece::King, Color::White))
        .with(28, man(Piece::Pawn, Color::White))
        .with(60, man(Piece::King, Color::Black));
    assert!(is_endgame(&placement));
    // King e1: endgame table entry 59 = -30. Pawn e4: entry 35 = 20.
    // Black king e8: endgame table entry 60 = -30, counted against Black.
    let expected = (20000 - 30) + (100 + 20) - (20000 - 30);
    assert_eq!(evaluate(&placement, Color::White, BoardStatus::Ongoing), expected);
    assert_eq!(evaluate(&placement, Color::Black, BoardStatus::Ongoing), -expected);
    assert_eq!(evaluate(&placement, Color::White, BoardStatus::Stalemate), 0);
    assert_eq!(evaluate(&placement, Color::White, BoardStatus::Checkmate), -10000);
    assert_eq!(evaluate(&placement, Color::Black, BoardStatus::Checkmate), -10000);
}

#[test]
fn the_king_changes_tables_in_the_endgame() {
    // With queens and rooks on, the king on g1 is worth its shelter.
    let middle = board("r2q1rk1/8/8/8/8/8/8/R2Q1RK1 w - - 0 1");
    assert_eq!(evaluate_position(&middle), 0);
    let placement = middle.placement();
    assert!(!is_endgame(&placement));
    // King alone on g1 against king on g8: both read the endgame table.
    let bare = board("6k1/8/8/8/8/8/8/6K1 w - - 0 1");
    assert!(is_endgame(&bare.placement()));
    assert_eq!(evaluate_position(&bare), 0);
    // One side's king in the corner, the other's in the centre.
    let lopsided = board("7k/8/8/8/4K3/8/8/8 w - - 0 1");
    // e4 is square 28, entry 35 = 40; h8 is square 63 for Black, entry 63 = -50.
    assert_eq!(evaluate_position(&lopsided), 40 + 50);
}

#[test]
fn endgame_needs_both_sides() {
    // No queens at all.
    assert!(is_endgame(&board("r3k2r/8/8/8/8/8/8/R3K2R w - - 0 1").placement()));
    // One queen each, nothing beside but kings and pawns.
    assert!(is_endgame(&board("3qk3/pppp4/8/8/8/8/PPPP4/3QK3 w - - 0 1").placement()));
    // White's queen has a rook beside her.
    assert!(!is_endgame(&board("3qk3/8/8/8/8/8/8/R2QK3 w - - 0 1").placement()));
    // White's queen has two minor pieces beside her.
    assert!(!is_endgame(&board("3qk3/8/8/8/8/8/8/1NBQK3 w - - 0 1").placement()));
    // A side without a queen has reached the endgame whatever else it has.
    assert!(is_endgame(&board("r3k2r/8/8/8/8/8/8/3QK3 w - - 0 1").placement()));
    // Two queens on one side.
    assert!(!is_endgame(&board("4k3/8/8/8/8/8/8/2QQK3 w - - 0 1").placement()));
}

#[test]
fn counting_men() {
    let placement = start().placement();
    assert_eq!(count_pieces(&placement, Piece::Pawn, Color::White), 8);
    assert_eq!(count_pieces(&placement, Piece::Pawn, Color::Black), 8);
    assert_eq!(count_pieces(&placement, Piece::Knight, Color::White), 2);
    assert_eq!(count_pieces(&placement, Piece::Queen, Color::Black), 1);
    assert_eq!(count_pieces(&placement, Piece::King, Color::Black), 1);
    assert_eq!(count_pieces(&Placement::empty(), Piece::King, Color::Black), 0);
}

#[test]
fn a_placement_is_read_off_the_board() {
    let placement = start().placement();
    assert_eq!(placement.at(0), man(Piece::Rook, Color::White));
    assert_eq!(placement.at(4), man(Piece::King, Color::White));
    assert_eq!(placement.at(12), man(Piece::Pawn, Color::White));
    assert_eq!(placement.at(28), None);
    assert_eq!(placement.at(51), man(Piece::Pawn, Color::Black));
    assert_eq!(placement.at(59), man(Piece::Queen, Color::Black));
    assert_eq!(placement.at(62), man(Piece::Knight, Color::Black));
    assert_eq!(placement.at(61), man(Piece::Bishop, Color::Black));
}

#[test]
fn a_position_and_its_mirror_have_opposite_scores() {
    // Each second position is the first turned round with the colours
    // exchanged; the same side is to move in both.
    let pairs = [
        ("4k3/8/8/8/8/8/4P3/4K3 w - - 0 1", "3k4/3p4/8/8/8/8/8/3K4 w - - 0 1"),
        ("4k3/8/8/3q4/8/2N5/PP6/4K3 w - - 0 1", "3k4/6pp/5n2/8/4Q3/8/8/3K4 w - - 0 1"),
        ("r3k3/8/8/8/8/8/8/4K2R b - - 0 1", "r2k4/8/8/8/8/8/8/3K3R b - - 0 1"),
    ];
    for (fen, mirror) in pairs {
        let score = evaluate_position(&board(fen));
        let mirrored = evaluate_position(&board(mirror));
        assert_eq!(score, -mirrored, "{} against {}", fen, mirror);
    }
    assert_eq!(evaluate_position(&board("4k3/8/8/8/8/8/4P3/4K3 w - - 0 1")), 100 - 20 + 0);
}
