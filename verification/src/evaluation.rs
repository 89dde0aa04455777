//! Static evaluation: material and piece-square tables, seen from the side to
//! move.

use vstd::prelude::*;

use crate::board::{
    board_in_check, board_legal_moves, board_side_to_move, board_squares, status_of, BoardStatus,
    Color, Occupant, Piece, Placement, Position,
};
use crate::sums::{lemma_total_bounds, lemma_total_negated, lemma_total_reversed, total};
use crate::INFINITY;

verus! {

pub const PAWN_TABLE: [i32; 64] = [
    0, 0, 0, 0, 0, 0, 0, 0, 50, 50, 50, 50, 50, 50, 50, 50, 10, 10, 20, 30, 30, 20, 10, 10, 5, 5,
    10, 25, 25, 10, 5, 5, 0, 0, 0, 20, 20, 0, 0, 0, 5, -5, -10, 0, 0, -10, -5, 5, 5, 10, 10, -20,
    -20, 10, 10, 5, 0, 0, 0, 0, 0, 0, 0, 0,
];

pub const KNIGHT_TABLE: [i32; 64] = [
    -50, -40, -30, -30, -30, -30, -40, -50, -40, -20, 0, 0, 0, 0, -20, -40, -30, 0, 10, 15, 15, 10,
    0, -30, -30, 5, 15, 20, 20, 15, 5, -30, -30, 0, 15, 20, 20, 15, 0, -30, -30, 5, 10, 15, 15, 10,
    5, -30, -40, -20, 0, 5, 5, 0, -20, -40, -50, -40, -30, -30, -30, -30, -40, -50,
];

pub const BISHOP_TABLE: [i32; 64] = [
    -20, -10, -10, -10, -10, -10, -10, -20, -10, 0, 0, 0, 0, 0, 0, -10, -10, 0, 5, 10, 10, 5, 0,
    -10, -10, 5, 5, 10, 10, 5, 5, -10, -10, 0, 10, 10, 10, 10, 0, -10, -10, 10, 10, 10, 10, 10, 10,
    -10, -10, 5, 0, 0, 0, 0, 5, -10, -20, -10, -10, -10, -10, -10, -10, -20,
];

pub const ROOK_TABLE: [i32; 64] = [
    0, 0, 0, 0, 0, 0, 0, 0, 5, 10, 10, 10, 10, 10, 10, 5, -5, 0, 0, 0, 0, 0, 0, -5, -5, 0, 0, 0, 0,
    0, 0, -5, -5, 0, 0, 0, 0, 0, 0, -5, -5, 0, 0, 0, 0, 0, 0, -5, -5, 0, 0, 0, 0, 0, 0, -5, 0, 0,
    0, 5, 5, 0, 0, 0,
];

pub const QUEEN_TABLE: [i32; 64] = [
    -20, -10, -10, -5, -5, -10, -10, -20, -10, 0, 0, 0, 0, 0, 0, -10, -10, 0, 5, 5, 5, 5, 0, -10,
    -5, 0, 5, 5, 5, 5, 0, -5, 0, 0, 5, 5, 5, 5, 0, -5, -10, 5, 5, 5, 5, 5, 0, -10, -10, 0, 5, 0, 0,
    0, 0, -10, -20, -10, -10, -5, -5, -10, -10, -20,
];

pub const KING_TABLE: [i32; 64] = [
    -30, -40, -40, -50, -50, -40, -40, -30, -30, -40, -40, -50, -50, -40, -40, -30, -30, -40, -40,
    -50, -50, -40, -40, -30, -30, -40, -40, -50, -50, -40, -40, -30, -20, -30, -30, -40, -40, -30,
    -30, -20, -10, -20, -20, -20, -20, -20, -20, -10, 20, 20, 0, 0, 0, 0, 20, 20, 20, 30, 10, 0, 0,
    10, 30, 20,
];

pub const KING_TABLE_ENDGAME: [i32; 64] = [
    -50, -40, -30, -20, -20, -30, -40, -50, -30, -20, -10, 0, 0, -10, -20, -30, -30, -10, 20, 30,
    30, 20, -10, -30, -30, -10, 30, 40, 40, 30, -10, -30, -30, -10, 30, 40, 40, 30, -10, -30, -30,
    -10, 20, 30, 30, 20, -10, -30, -30, -30, 0, 0, 0, 0, -30, -30, -50, -30, -30, -30, -30, -30,
    -30, -50,
];

/// No table entry is larger in size than this.
pub const TABLE_LIMIT: i32 = 50;

/// No man is worth more than this, table entry included.
pub const SQUARE_LIMIT: i32 = 20050;

/// No static evaluation is larger in size than this.
pub const SCORE_LIMIT: i32 = 1283200;

/// What a man is worth by its kind alone, in centipawns.
pub open spec fn material_value(piece: Piece) -> int {
    match piece {
        Piece::Pawn => 100,
        Piece::Knight => 320,
        Piece::Bishop => 330,
        Piece::Rook => 500,
        Piece::Queen => 900,
        Piece::King => 20000,
    }
}

/// The table that holds for a kind of man; the king has one for the middle
/// game and one for the endgame.
pub open spec fn table_of(piece: Piece, endgame: bool) -> Seq<i32> {
    match piece {
        Piece::Pawn => PAWN_TABLE@,
        Piece::Knight => KNIGHT_TABLE@,
        Piece::Bishop => BISHOP_TABLE@,
        Piece::Rook => ROOK_TABLE@,
        Piece::Queen => QUEEN_TABLE@,
        Piece::King => if endgame {
            KING_TABLE_ENDGAME@
        } else {
            KING_TABLE@
        },
    }
}

/// Where a man's square is looked up in its table: the tables are written as
/// White sees the board from above, so White reads them back to front.
pub open spec fn table_index(color: Color, square: int) -> int {
    match color {
        Color::White => 63 - square,
        Color::Black => square,
    }
}

/// What a man is worth for standing where it stands.
pub open spec fn positional_value(piece: Piece, color: Color, square: int, endgame: bool) -> int {
    table_of(piece, endgame)[table_index(color, square)] as int
}

/// What one square adds to White's account.
pub open spec fn square_score(squares: Seq<Option<Occupant>>, square: int, endgame: bool) -> int {
    match squares[square] {
        Some(occupant) => {
            let worth = material_value(occupant.piece) + positional_value(
                occupant.piece,
                occupant.color,
                square,
                endgame,
            );
            match occupant.color {
                Color::White => worth,
                Color::Black => -worth,
            }
        },
        None => 0,
    }
}

/// What each of the 64 squares adds to White's account.
pub open spec fn square_scores(squares: Seq<Option<Occupant>>, endgame: bool) -> Seq<int> {
    Seq::new(64, |i: int| square_score(squares, i, endgame))
}

/// For each of the 64 squares, 1 where a `piece` of `color` stands and 0 elsewhere.
pub open spec fn marks(squares: Seq<Option<Occupant>>, piece: Piece, color: Color) -> Seq<int> {
    Seq::new(
        64,
        |i: int|
            if squares[i] == Some(Occupant { piece, color }) {
                1int
            } else {
                0int
            },
    )
}

/// How many men of one kind and side are on the board.
pub open spec fn count_of(squares: Seq<Option<Occupant>>, piece: Piece, color: Color) -> int {
    total(marks(squares, piece, color), 64)
}

/// Whether one side has reached the endgame: it has no queen, or one queen
/// with no rook and at most one minor piece beside her.
pub open spec fn side_in_endgame(squares: Seq<Option<Occupant>>, color: Color) -> bool {
    let queens = count_of(squares, Piece::Queen, color);
    let minors = count_of(squares, Piece::Knight, color) + count_of(squares, Piece::Bishop, color);
    let rooks = count_of(squares, Piece::Rook, color);
    queens == 0 || (queens == 1 && minors <= 1 && rooks == 0)
}

/// The endgame has come when both sides have reached it.
pub open spec fn in_endgame(squares: Seq<Option<Occupant>>) -> bool {
    side_in_endgame(squares, Color::White) && side_in_endgame(squares, Color::Black)
}

/// White's account of a position in play: every man's material and
/// positional worth, White's counted up and Black's counted down.
pub open spec fn white_score(squares: Seq<Option<Occupant>>) -> int {
    total(square_scores(squares, in_endgame(squares)), 64)
}

/// The static evaluation, from the point of view of the side to move.
pub open spec fn evaluation(
    squares: Seq<Option<Occupant>>,
    to_move: Color,
    status: BoardStatus,
) -> int {
    let for_white = match status {
        BoardStatus::Ongoing => white_score(squares),
        BoardStatus::Stalemate => 0,
        BoardStatus::Checkmate => match to_move {
            Color::White => -INFINITY as int,
            Color::Black => INFINITY as int,
        },
    };
    match to_move {
        Color::White => for_white,
        Color::Black => -for_white,
    }
}

/// The static evaluation of a board, as the `chess` crate describes it.
pub open spec fn board_evaluation(board: chess::Board) -> int {
    evaluation(
        board_squares(board),
        board_side_to_move(board),
        status_of(board_legal_moves(board).len(), board_in_check(board)),
    )
}

spec fn all_within(values: Seq<i32>, n: int) -> bool
    decreases n,
{
    n <= 0 || (-TABLE_LIMIT <= values[n - 1] <= TABLE_LIMIT && all_within(values, n - 1))
}

proof fn lemma_within(values: Seq<i32>, n: int, i: int)
    requires
        all_within(values, n),
        0 <= i < n,
    ensures
        -TABLE_LIMIT <= values[i] <= TABLE_LIMIT,
    decreases n,
{
    if i < n - 1 {
        lemma_within(values, n - 1, i);
    }
}

/// Every entry of every table lies within `TABLE_LIMIT` of zero.
pub proof fn lemma_table_bounds(piece: Piece, endgame: bool, index: int)
    requires
        0 <= index < 64,
    ensures
        table_of(piece, endgame).len() == 64,
        -TABLE_LIMIT <= table_of(piece, endgame)[index] <= TABLE_LIMIT,
{
    let table = table_of(piece, endgame);
    assert(all_within(table, 64)) by {
        reveal_with_fuel(all_within, 65);
    }
    lemma_within(table, 64, index);
}

/// No square adds more than a king and its best table entry.
pub proof fn lemma_square_score_bounds(
    squares: Seq<Option<Occupant>>,
    square: int,
    endgame: bool,
)
    requires
        0 <= square < 64,
    ensures
        -SQUARE_LIMIT <= square_score(squares, square, endgame) <= SQUARE_LIMIT,
{
    match squares[square] {
        Some(occupant) => {
            lemma_table_bounds(occupant.piece, endgame, table_index(occupant.color, square));
        },
        None => {},
    }
}

/// Every static evaluation lies within `SCORE_LIMIT` of zero.
pub proof fn lemma_evaluation_bounds(
    squares: Seq<Option<Occupant>>,
    to_move: Color,
    status: BoardStatus,
)
    ensures
        -SCORE_LIMIT <= evaluation(squares, to_move, status) <= SCORE_LIMIT,
{
    let endgame = in_endgame(squares);
    let values = square_scores(squares, endgame);
    assert forall|i: int| 0 <= i < 64 implies -SQUARE_LIMIT <= #[trigger] values[i]
        <= SQUARE_LIMIT by {
        lemma_square_score_bounds(squares, i, endgame);
    }
    lemma_total_bounds(values, SQUARE_LIMIT as int, 64);
}

/// The evaluation reads the first 64 squares and nothing else.
pub proof fn lemma_evaluation_agrees(
    a: Seq<Option<Occupant>>,
    b: Seq<Option<Occupant>>,
    to_move: Color,
    status: BoardStatus,
)
    requires
        forall|i: int| 0 <= i < 64 ==> a[i] == b[i],
    ensures
        in_endgame(a) == in_endgame(b),
        evaluation(a, to_move, status) == evaluation(b, to_move, status),
{
    assert forall|piece: Piece, color: Color| count_of(a, piece, color) == count_of(
        b,
        piece,
        color,
    ) by {
        assert(marks(a, piece, color) =~= marks(b, piece, color));
    }
    let endgame = in_endgame(a);
    assert(square_scores(a, endgame) =~= square_scores(b, endgame));
}

/// The same man in the other side's colours.
pub open spec fn flipped(occupant: Option<Occupant>) -> Option<Occupant> {
    match occupant {
        Some(o) => Some(Occupant { piece: o.piece, color: o.color.opposite() }),
        None => None,
    }
}

/// The position with the colours exchanged and the board turned round, so
/// that each man stands where the tables read the same entry for it.
pub open spec fn mirrored(squares: Seq<Option<Occupant>>) -> Seq<Option<Occupant>> {
    Seq::new(64, |i: int| flipped(squares[63 - i]))
}

/// The mirrored position has of each kind of man what the other side had.
pub proof fn lemma_mirror_counts(squares: Seq<Option<Occupant>>, piece: Piece, color: Color)
    ensures
        count_of(mirrored(squares), piece, color) == count_of(squares, piece, color.opposite()),
{
    let a = marks(squares, piece, color.opposite());
    let b = marks(mirrored(squares), piece, color);
    assert forall|i: int| 0 <= i < 64 implies b[i] == a[63 - i] by {
        let there = squares[63 - i];
        assert(mirrored(squares)[i] == flipped(there));
        assert((flipped(there) == Some(Occupant { piece, color })) == (there == Some(
            Occupant { piece, color: color.opposite() },
        )));
    }
    lemma_total_reversed(a, b, 64);
}

/// Mirroring a position does not change whether the endgame has come.
pub proof fn lemma_mirror_endgame(squares: Seq<Option<Occupant>>)
    ensures
        in_endgame(mirrored(squares)) == in_endgame(squares),
{
    lemma_mirror_counts(squares, Piece::Queen, Color::White);
    lemma_mirror_counts(squares, Piece::Knight, Color::White);
    lemma_mirror_counts(squares, Piece::Bishop, Color::White);
    lemma_mirror_counts(squares, Piece::Rook, Color::White);
    lemma_mirror_counts(squares, Piece::Queen, Color::Black);
    lemma_mirror_counts(squares, Piece::Knight, Color::Black);
    lemma_mirror_counts(squares, Piece::Bishop, Color::Black);
    lemma_mirror_counts(squares, Piece::Rook, Color::Black);
}

/// Evaluation symmetry: with the same side to move, a position that is not
/// checkmate and its mirror image are worth the same with opposite signs.
pub proof fn lemma_evaluation_mirror(
    squares: Seq<Option<Occupant>>,
    to_move: Color,
    status: BoardStatus,
)
    requires
        status != BoardStatus::Checkmate,
    ensures
        evaluation(mirrored(squares), to_move, status) == -evaluation(squares, to_move, status),
{
    lemma_mirror_endgame(squares);
    let endgame = in_endgame(squares);
    let a = square_scores(squares, endgame);
    let b = square_scores(mirrored(squares), endgame);
    let negated = Seq::new(64, |i: int| -a[i]);
    assert forall|i: int| 0 <= i < 64 implies b[i] == negated[63 - i] by {
        assert(mirrored(squares)[i] == flipped(squares[63 - i]));
    }
    lemma_total_reversed(negated, b, 64);
    lemma_total_negated(a, negated, 64);
}

/// What a man is worth by its kind alone, in centipawns.
pub fn material(piece: Piece) -> (r: i32)
    ensures
        r == material_value(piece),
{
    match piece {
        Piece::Pawn => 100,
        Piece::Knight => 320,
        Piece::Bishop => 330,
        Piece::Rook => 500,
        Piece::Queen => 900,
        Piece::King => 20000,
    }
}

/// What a man is worth for standing where it stands.
pub fn piece_square(piece: Piece, color: Color, square: u8, endgame: bool) -> (r: i32)
    requires
        square < 64,
    ensures
        r == positional_value(piece, color, square as int, endgame),
        -TABLE_LIMIT <= r <= TABLE_LIMIT,
{
    let index: usize = match color {
        Color::White => 63 - square as usize,
        Color::Black => square as usize,
    };
    proof {
        lemma_table_bounds(piece, endgame, index as int);
    }
    match piece {
        Piece::Pawn => PAWN_TABLE[index],
        Piece::Knight => KNIGHT_TABLE[index],
        Piece::Bishop => BISHOP_TABLE[index],
        Piece::Rook => ROOK_TABLE[index],
        Piece::Queen => QUEEN_TABLE[index],
        Piece::King => {
            if endgame {
                KING_TABLE_ENDGAME[index]
            } else {
                KING_TABLE[index]
            }
        },
    }
}

/// How many men of one kind and side stand on the board.
pub fn count_pieces(placement: &Placement, piece: Piece, color: Color) -> (r: u32)
    requires
        placement.wf(),
    ensures
        r == count_of(placement@, piece, color),
        r <= 64,
{
    let ghost values = marks(placement@, piece, color);
    let mut count: u32 = 0;
    let mut square: u8 = 0;
    while square < 64
        invariant
            square <= 64,
            placement.wf(),
            values == marks(placement@, piece, color),
            count == total(values, square as int),
            count <= square,
        decreases 64 - square,
    {
        let here = match placement.at(square) {
            Some(occupant) => occupant.piece == piece && occupant.color == color,
            None => false,
        };
        if here {
            count = count + 1;
        }
        square = square + 1;
    }
    count
}

/// Whether one side has reached the endgame.
fn side_endgame(placement: &Placement, color: Color) -> (r: bool)
    requires
        placement.wf(),
    ensures
        r == side_in_endgame(placement@, color),
{
    let queens = count_pieces(placement, Piece::Queen, color);
    if queens == 0 {
        true
    } else if queens == 1 {
        let minors = count_pieces(placement, Piece::Knight, color) + count_pieces(
            placement,
            Piece::Bishop,
            color,
        );
        let rooks = count_pieces(placement, Piece::Rook, color);
        minors <= 1 && rooks == 0
    } else {
        false
    }
}

/// Whether the king should be judged by its endgame table: both sides are
/// without a queen, or have one queen with no rook and at most one minor piece.
pub fn is_endgame(placement: &Placement) -> (r: bool)
    requires
        placement.wf(),
    ensures
        r == in_endgame(placement@),
{
    side_endgame(placement, Color::White) && side_endgame(placement, Color::Black)
}

/// The static evaluation of a placement with `to_move` to move, from that
/// side's point of view.
pub fn evaluate(placement: &Placement, to_move: Color, status: BoardStatus) -> (score: i32)
    requires
        placement.wf(),
    ensures
        score == evaluation(placement@, to_move, status),
        -SCORE_LIMIT <= score <= SCORE_LIMIT,
{
    proof {
        lemma_evaluation_bounds(placement@, to_move, status);
    }
    let for_white: i32 = match status {
        BoardStatus::Ongoing => {
            let endgame = is_endgame(placement);
            let ghost values = square_scores(placement@, endgame);
            let mut score: i32 = 0;
            let mut square: u8 = 0;
            while square < 64
                invariant
                    square <= 64,
                    placement.wf(),
                    values == square_scores(placement@, endgame),
                    score == total(values, square as int),
                    -20050 * square <= score <= 20050 * square,
                decreases 64 - square,
            {
                proof {
                    lemma_square_score_bounds(placement@, square as int, endgame);
                    assert(values[square as int] == square_score(
                        placement@,
                        square as int,
                        endgame,
                    ));
                }
                match placement.at(square) {
                    Some(occupant) => {
                        let worth = material(occupant.piece) + piece_square(
                            occupant.piece,
                            occupant.color,
                            square,
                            endgame,
                        );
                        match occupant.color {
                            Color::White => {
                                score = score + worth;
                            },
                            Color::Black => {
                                score = score - worth;
                            },
                        }
                    },
                    None => {},
                }
                square = square + 1;
            }
            score
        },
        BoardStatus::Stalemate => 0,
        BoardStatus::Checkmate => match to_move {
            Color::White => -INFINITY,
            Color::Black => INFINITY,
        },
    };
    match to_move {
        Color::White => for_white,
        Color::Black => -for_white,
    }
}

/// The static evaluation of a position, from the point of view of the side to move.
pub fn evaluate_position(position: &Position) -> (score: i32)
    ensures
        score == board_evaluation(position@),
        -SCORE_LIMIT <= score <= SCORE_LIMIT,
{
    let moves = position.legal_moves();
    evaluate_with(position, moves.len())
}

/// The static evaluation of a position of which the number of legal moves
/// is known already.
pub(crate) fn evaluate_with(position: &Position, moves: usize) -> (score: i32)
    requires
        moves == board_legal_moves(position@).len(),
    ensures
        score == board_evaluation(position@),
        -SCORE_LIMIT <= score <= SCORE_LIMIT,
{
    let state = if moves > 0 {
        BoardStatus::Ongoing
    } else if position.in_check() {
        BoardStatus::Checkmate
    } else {
        BoardStatus::Stalemate
    };
    let to_move = position.side_to_move();
    let placement = match state {
        BoardStatus::Ongoing => position.placement(),
        _ => Placement::empty(),
    };
    proof {
        if state == BoardStatus::Ongoing {
            lemma_evaluation_agrees(placement@, board_squares(position@), to_move, state);
        }
    }
    evaluate(&placement, to_move, state)
}

} // verus!
