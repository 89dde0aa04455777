//! The chess board as the engine sees it.
//!
//! Move generation, move making and hashing are the `chess` crate's work. A
//! [`Position`] holds a board of that crate that is fit to be handed to it,
//! and the functions at the end of this file are the only place where that
//! is done. Everything the engine itself decides is decided on plain values:
//! [`Move`], [`Occupant`] and the [`Placement`] read off a board.

use vstd::prelude::*;

use crate::sums::total;

verus! {

/// One of the two sides.
#[derive(Clone, Copy, Debug, PartialEq, Eq, PartialOrd, Structural)]
pub enum Color {
    White,
    Black,
}

impl Color {
    /// The side that is not `self`.
    pub open spec fn opposite(self) -> Color {
        match self {
            Color::White => Color::Black,
            Color::Black => Color::White,
        }
    }
}

/// The six kinds of chessmen.
#[derive(Clone, Copy, Debug, PartialEq, Eq, PartialOrd, Structural)]
pub enum Piece {
    Pawn,
    Knight,
    Bishop,
    Rook,
    Queen,
    King,
}

/// A man standing on a square.
#[derive(Clone, Copy, Debug, PartialEq, Eq, PartialOrd, Structural)]
pub struct Occupant {
    pub piece: Piece,
    pub color: Color,
}

/// A move: the square left, the square reached, and the piece a pawn turns into.
/// Squares are numbered from 0 (a1) along the ranks to 63 (h8).
#[derive(Clone, Copy, Debug, PartialEq, Eq, PartialOrd, Structural)]
pub struct Move {
    pub from: u8,
    pub to: u8,
    pub promotion: Option<Piece>,
}

/// Whether the side to move can still move, and if not, why.
#[derive(Clone, Copy, Debug, PartialEq, Eq, Structural)]
pub enum BoardStatus {
    Ongoing,
    Stalemate,
    Checkmate,
}

/// What stands on each of the 64 squares.
#[derive(Debug)]
pub struct Placement {
    pub squares: Vec<Option<Occupant>>,
}

impl View for Placement {
    type V = Seq<Option<Occupant>>;

    open spec fn view(&self) -> Seq<Option<Occupant>> {
        self.squares@
    }
}

impl Placement {
    /// A placement covers the whole board.
    pub open spec fn wf(&self) -> bool {
        self.squares@.len() == 64
    }

    /// The board with no man on it.
    pub fn empty() -> (p: Placement)
        ensures
            p.wf(),
            forall|i: int| 0 <= i < 64 ==> p@[i] == None::<Occupant>,
    {
        let mut squares: Vec<Option<Occupant>> = Vec::new();
        let mut i: usize = 0;
        while i < 64
            invariant
                i <= 64,
                squares@.len() == i,
                forall|j: int| 0 <= j < i ==> squares@[j] == None::<Occupant>,
            decreases 64 - i,
        {
            squares.push(None);
            i = i + 1;
        }
        Placement { squares }
    }

    /// The same placement with `square` holding `occupant`.
    pub fn with(self, square: u8, occupant: Option<Occupant>) -> (p: Placement)
        requires
            self.wf(),
            square < 64,
        ensures
            p.wf(),
            p@ == self@.update(square as int, occupant),
    {
        let mut squares = self.squares;
        squares.set(square as usize, occupant);
        Placement { squares }
    }

    /// What stands on `square`.
    pub fn at(&self, square: u8) -> (r: Option<Occupant>)
        requires
            self.wf(),
            square < 64,
        ensures
            r == self@[square as int],
    {
        self.squares[square as usize]
    }

    /// Reads the placement off a position, square by square.
    pub fn from_board(position: &Position) -> (p: Placement)
        ensures
            p.wf(),
            forall|i: int| 0 <= i < 64 ==> p@[i] == board_squares(position@)[i],
    {
        position.placement()
    }

    /// Reads the placement off a board that is in order.
    fn read(board: &chess::Board) -> (p: Placement)
        requires
            board_sane(*board),
        ensures
            p.wf(),
            forall|i: int| 0 <= i < 64 ==> p@[i] == board_squares(*board)[i],
    {
        let mut squares: Vec<Option<Occupant>> = Vec::new();
        let mut square: u8 = 0;
        while square < 64
            invariant
                square <= 64,
                board_sane(*board),
                squares@.len() == square,
                forall|j: int| 0 <= j < square ==> squares@[j] == board_squares(*board)[j],
            decreases 64 - square,
        {
            let occupant = match (piece_on(board, square), color_on(board, square)) {
                (Some(piece), Some(color)) => Some(Occupant { piece, color }),
                _ => None,
            };
            squares.push(occupant);
            square = square + 1;
        }
        Placement { squares }
    }
}

/// No side ever has more men than it starts with.
pub const MAX_MEN: u32 = 16;

/// For each of the 64 squares, 1 where a man of `color` stands and 0 elsewhere.
pub open spec fn men_marks(squares: Seq<Option<Occupant>>, color: Color) -> Seq<int> {
    Seq::new(
        64,
        |i: int|
            match squares[i] {
                Some(occupant) => if occupant.color == color {
                    1int
                } else {
                    0int
                },
                None => 0int,
            },
    )
}

/// How many men a side has on the board.
pub open spec fn men_of(squares: Seq<Option<Occupant>>, color: Color) -> int {
    total(men_marks(squares, color), 64)
}

/// A board that the engine can work on: the `chess` crate finds it sane, and
/// neither side has more than `MAX_MEN` men.
pub open spec fn playable(board: chess::Board) -> bool {
    &&& board_sane(board)
    &&& men_of(board_squares(board), Color::White) <= MAX_MEN
    &&& men_of(board_squares(board), Color::Black) <= MAX_MEN
}

/// The board that a text in Forsyth-Edwards notation stands for, if its
/// first field fits the board and names both kings, the `chess` crate reads
/// it, and the board is playable.
pub open spec fn position_of_fen(fen: Seq<char>) -> Option<chess::Board> {
    if field_fits(fen, 0, 0, 0) && names_king(fen, 'K') && names_king(fen, 'k') {
        match board_of_fen(fen) {
            Some(board) => if playable(board) {
                Some(board)
            } else {
                None
            },
            None => None,
        }
    } else {
        None
    }
}

/// A position of a game: a board of the `chess` crate that is playable.
#[derive(Clone, Copy, Debug, PartialEq, Eq)]
pub struct Position {
    board: chess::Board,
}

impl View for Position {
    type V = chess::Board;

    closed spec fn view(&self) -> chess::Board {
        self.board
    }
}

impl Position {
    #[verifier::type_invariant]
    spec fn inv(self) -> bool {
        playable(self.board)
    }

    /// How many men of one side stand on a board.
    fn count_men(board: &chess::Board, color: Color) -> (r: u32)
        requires
            board_sane(*board),
        ensures
            r == men_of(board_squares(*board), color),
            r <= 64,
    {
        let ghost values = men_marks(board_squares(*board), color);
        let mut count: u32 = 0;
        let mut square: u8 = 0;
        while square < 64
            invariant
                square <= 64,
                board_sane(*board),
                values == men_marks(board_squares(*board), color),
                count == total(values, square as int),
                count <= square,
            decreases 64 - square,
        {
            let here = match color_on(board, square) {
                Some(found) => found == color,
                None => false,
            };
            if here {
                count = count + 1;
            }
            square = square + 1;
        }
        count
    }

    /// The position on a board, if the board is playable.
    pub fn new(board: chess::Board) -> (r: Option<Position>)
        ensures
            r is Some <==> playable(board),
            r matches Some(position) ==> position@ == board,
    {
        if is_sane(&board) && Position::count_men(&board, Color::White) <= MAX_MEN
            && Position::count_men(&board, Color::Black) <= MAX_MEN {
            Some(Position { board })
        } else {
            None
        }
    }

    /// The position that a text in Forsyth-Edwards notation describes, if it
    /// describes one that is playable.
    pub fn from_fen(fen: &str) -> (r: Option<Position>)
        ensures
            match r {
                Some(position) => position_of_fen(fen@) == Some(position@),
                None => position_of_fen(fen@) is None,
            },
    {
        if !fits(fen) || !has_king(fen, 'K') || !has_king(fen, 'k') {
            return None;
        }
        match board_from_fen(fen) {
            Some(board) => Position::new(board),
            None => None,
        }
    }

    /// The board of the position.
    pub fn board(&self) -> (r: chess::Board)
        ensures
            r == self@,
    {
        self.board
    }

    /// What stands on each square.
    pub fn placement(&self) -> (r: Placement)
        ensures
            r.wf(),
            forall|i: int| 0 <= i < 64 ==> r@[i] == board_squares(self@)[i],
    {
        proof {
            use_type_invariant(self);
        }
        Placement::read(&self.board)
    }

    /// The side to move.
    pub fn side_to_move(&self) -> (r: Color)
        ensures
            r == board_side_to_move(self@),
    {
        side_to_move(&self.board)
    }

    /// Whether the side to move stands in check.
    pub fn in_check(&self) -> (r: bool)
        ensures
            r == board_in_check(self@),
    {
        in_check(&self.board)
    }

    /// Whether the side to move can move, and if not, why.
    pub fn status(&self) -> (r: BoardStatus)
        ensures
            r == status_of(board_legal_moves(self@).len(), board_in_check(self@)),
    {
        let moves = self.legal_moves();
        if moves.len() > 0 {
            BoardStatus::Ongoing
        } else if self.in_check() {
            BoardStatus::Checkmate
        } else {
            BoardStatus::Stalemate
        }
    }

    /// The legal moves, in the generator's order: the moves that the
    /// generator gives, but for those that lead to a board which is not
    /// playable.
    pub fn legal_moves(&self) -> (r: Vec<Move>)
        ensures
            r@ == board_legal_moves(self@),
            forall|i: int| 0 <= i < r@.len() ==> (#[trigger] r@[i]).from < 64 && r@[i].to < 64,
    {
        proof {
            use_type_invariant(self);
        }
        let generated = generated_moves(&self.board);
        let mut kept: Vec<Move> = Vec::new();
        let mut i: usize = 0;
        while i < generated.len()
            invariant
                i <= generated.len(),
                playable(self.board),
                generated@ == board_generated_moves(self@),
                forall|j: int|
                    0 <= j < generated@.len() ==> (#[trigger] generated@[j]).from < 64
                        && generated@[j].to < 64,
                kept@ == kept_moves(self@, i as int),
                forall|j: int| 0 <= j < kept@.len() ==> (#[trigger] kept@[j]).from < 64 && kept@[j].to
                    < 64,
            decreases generated.len() - i,
        {
            let mv = generated[i];
            assert(generated@.contains(mv));
            let reached = make_move(&self.board, mv);
            if Position::new(reached).is_some() {
                kept.push(mv);
            }
            i = i + 1;
        }
        kept
    }

    /// The hash of the position.
    pub fn hash(&self) -> (r: u64)
        ensures
            r == board_hash(self@),
    {
        position_hash(&self.board)
    }

    /// The position after a legal move.
    pub(crate) fn make_move(&self, mv: Move) -> (r: Position)
        requires
            board_legal_moves(self@).contains(mv),
        ensures
            r@ == board_after(self@, mv),
    {
        proof {
            use_type_invariant(self);
            lemma_kept_contains(self@, board_generated_moves(self@).len() as int, mv);
        }
        Position { board: make_move(&self.board, mv) }
    }

    /// The position after `mv`, if the move is legal.
    pub fn play(&self, mv: Move) -> (r: Option<Position>)
        ensures
            match r {
                Some(position) => board_legal_moves(self@).contains(mv) && position@
                    == board_after(self@, mv),
                None => !board_legal_moves(self@).contains(mv),
            },
    {
        let moves = self.legal_moves();
        let mut i: usize = 0;
        while i < moves.len()
            invariant
                i <= moves.len(),
                moves@ == board_legal_moves(self@),
                forall|j: int| 0 <= j < i ==> moves@[j] != mv,
            decreases moves.len() - i,
        {
            if moves[i] == mv {
                return Some(self.make_move(mv));
            }
            i = i + 1;
        }
        None
    }
}

/// The moves among the first `n` that the generator gives which lead to a
/// playable board, in the generator's order.
pub open spec fn kept_moves(board: chess::Board, n: int) -> Seq<Move>
    decreases n,
{
    if n <= 0 {
        Seq::empty()
    } else {
        let before = kept_moves(board, n - 1);
        let mv = board_generated_moves(board)[n - 1];
        if playable(board_after(board, mv)) {
            before.push(mv)
        } else {
            before
        }
    }
}

/// The legal moves of a board: what the generator gives, less the moves
/// after which the board is not playable.
pub open spec fn board_legal_moves(board: chess::Board) -> Seq<Move> {
    kept_moves(board, board_generated_moves(board).len() as int)
}

/// A move is kept exactly when the generator gives it and the board it
/// leads to is playable.
pub proof fn lemma_kept_contains(board: chess::Board, n: int, mv: Move)
    requires
        0 <= n <= board_generated_moves(board).len(),
    ensures
        kept_moves(board, n).contains(mv) <==> playable(board_after(board, mv)) && exists|j: int|
            0 <= j < n && board_generated_moves(board)[j] == mv,
    decreases n,
{
    if n > 0 {
        lemma_kept_contains(board, n - 1, mv);
        let before = kept_moves(board, n - 1);
        let last = board_generated_moves(board)[n - 1];
        if playable(board_after(board, last)) {
            let now = before.push(last);
            if before.contains(mv) {
                let j = choose|j: int| 0 <= j < before.len() && before[j] == mv;
                assert(now[j] == mv);
            }
            if last == mv {
                assert(now[now.len() - 1] == mv);
            }
            if now.contains(mv) {
                let j = choose|j: int| 0 <= j < now.len() && now[j] == mv;
                if j < before.len() {
                    assert(before[j] == mv);
                }
            }
        }
    }
}

/// A legal move leads to a playable board.
pub proof fn lemma_legal_move_is_sound(board: chess::Board, mv: Move)
    requires
        board_legal_moves(board).contains(mv),
    ensures
        board_generated_moves(board).contains(mv),
        playable(board_after(board, mv)),
{
    lemma_kept_contains(board, board_generated_moves(board).len() as int, mv);
}

/// Whether `mv` lands on a man of the side that is not `mover`.
pub open spec fn is_capture(squares: Seq<Option<Occupant>>, mover: Color, mv: Move) -> bool {
    match squares[mv.to as int] {
        Some(occupant) => occupant.color != mover,
        None => false,
    }
}

/// Whether `mv` is a pawn move or lands on an occupied square: such a move can
/// never be taken back by later play.
pub open spec fn is_irreversible(squares: Seq<Option<Occupant>>, mv: Move) -> bool {
    squares[mv.from as int] matches Some(occupant) && occupant.piece == Piece::Pawn
        || squares[mv.to as int] is Some
}

/// Whether `mv` lands on a man of the side that is not `mover`.
pub fn captures(placement: &Placement, mover: Color, mv: Move) -> (r: bool)
    requires
        placement.wf(),
        mv.to < 64,
    ensures
        r == is_capture(placement@, mover, mv),
{
    match placement.at(mv.to) {
        Some(occupant) => occupant.color != mover,
        None => false,
    }
}

/// Whether `mv` is a pawn move or a capture.
pub fn irreversible(placement: &Placement, mv: Move) -> (r: bool)
    requires
        placement.wf(),
        mv.from < 64,
        mv.to < 64,
    ensures
        r == is_irreversible(placement@, mv),
{
    let pawn = match placement.at(mv.from) {
        Some(occupant) => occupant.piece == Piece::Pawn,
        None => false,
    };
    pawn || placement.at(mv.to).is_some()
}

/// What the game's state is, given how many moves the side to move has and
/// whether it stands in check.
pub open spec fn status_of(moves: nat, in_check: bool) -> BoardStatus {
    if moves > 0 {
        BoardStatus::Ongoing
    } else if in_check {
        BoardStatus::Checkmate
    } else {
        BoardStatus::Stalemate
    }
}

/// Whether `line` can be played from `board`, move by move.
pub open spec fn is_line(board: chess::Board, line: Seq<Move>) -> bool
    decreases line.len(),
{
    line.len() == 0 || (board_legal_moves(board).contains(line[0]) && is_line(
        board_after(board, line[0]),
        line.drop_first(),
    ))
}

/// Whether a line can be played from a position, move by move.
pub fn playable_line(position: &Position, line: &Vec<Move>) -> (r: bool)
    ensures
        r == is_line(position@, line@),
{
    let mut current = *position;
    let mut i: usize = 0;
    assert(line@.skip(0) == line@);
    while i < line.len()
        invariant
            i <= line.len(),
            is_line(position@, line@) == is_line(current@, line@.skip(i as int)),
        decreases line.len() - i,
    {
        let rest = Ghost(line@.skip(i as int));
        assert(rest@[0] == line@[i as int]);
        assert(rest@.drop_first() == line@.skip(i + 1));
        match current.play(line[i]) {
            Some(next) => {
                current = next;
            },
            None => {
                return false;
            },
        }
        i = i + 1;
    }
    true
}

/// A legal move followed by a line from the position it leads to is a line.
pub proof fn lemma_line_extends(board: chess::Board, mv: Move, rest: Seq<Move>)
    requires
        board_legal_moves(board).contains(mv),
        is_line(board_after(board, mv), rest),
    ensures
        is_line(board, seq![mv] + rest),
{
    let line = seq![mv] + rest;
    assert(line[0] == mv);
    assert(line.drop_first() =~= rest);
}

/// How many squares a character of the first field stands for, where it is
/// a digit from one to eight.
pub open spec fn skipped(c: char) -> int {
    if c == '1' {
        1
    } else if c == '2' {
        2
    } else if c == '3' {
        3
    } else if c == '4' {
        4
    } else if c == '5' {
        5
    } else if c == '6' {
        6
    } else if c == '7' {
        7
    } else if c == '8' {
        8
    } else {
        0
    }
}

/// Whether the first field of a text, read from its `i`th character on with
/// `file` squares of the rank and `ranks` ranks already filled, writes no
/// square twice: no rank holds more than eight squares, and there are no
/// more than eight ranks.
pub open spec fn field_fits(fen: Seq<char>, i: int, file: int, ranks: int) -> bool
    decreases fen.len() - i,
{
    if i < 0 || i >= fen.len() || fen[i] == ' ' {
        true
    } else if fen[i] == '/' {
        ranks < 7 && field_fits(fen, i + 1, 0, ranks + 1)
    } else if skipped(fen[i]) > 0 {
        file + skipped(fen[i]) <= 8 && field_fits(fen, i + 1, file + skipped(fen[i]), ranks)
    } else {
        file < 8 && field_fits(fen, i + 1, file + 1, ranks)
    }
}

/// Whether the first field of a text writes no square of the board twice.
pub fn fits(fen: &str) -> (r: bool)
    ensures
        r == field_fits(fen@, 0, 0, 0),
{
    let n = fen.unicode_len();
    let mut i: usize = 0;
    let mut file: u8 = 0;
    let mut ranks: u8 = 0;
    while i < n
        invariant
            i <= n,
            n == fen@.len(),
            file <= 8,
            ranks <= 7,
            field_fits(fen@, 0, 0, 0) == field_fits(fen@, i as int, file as int, ranks as int),
        decreases n - i,
    {
        let c = fen.get_char(i);
        if c == ' ' {
            return true;
        }
        if c == '/' {
            if ranks >= 7 {
                return false;
            }
            file = 0;
            ranks = ranks + 1;
        } else {
            let step: u8 = if c == '1' {
                1
            } else if c == '2' {
                2
            } else if c == '3' {
                3
            } else if c == '4' {
                4
            } else if c == '5' {
                5
            } else if c == '6' {
                6
            } else if c == '7' {
                7
            } else if c == '8' {
                8
            } else {
                0
            };
            if step > 0 {
                if file + step > 8 {
                    return false;
                }
                file = file + step;
            } else {
                if file >= 8 {
                    return false;
                }
                file = file + 1;
            }
        }
        i = i + 1;
    }
    true
}

/// Whether the first field of a text, which ends at the first blank, holds
/// the letter that stands for a king.
pub open spec fn names_king(fen: Seq<char>, king: char) -> bool
    decreases fen.len(),
{
    fen.len() > 0 && fen[0] != ' ' && (fen[0] == king || names_king(fen.drop_first(), king))
}

/// Whether the first field of a text holds the letter that stands for a king.
pub fn has_king(fen: &str, king: char) -> (r: bool)
    ensures
        r == names_king(fen@, king),
{
    let n = fen.unicode_len();
    let mut i: usize = 0;
    assert(fen@.skip(0) == fen@);
    while i < n
        invariant
            i <= n,
            n == fen@.len(),
            names_king(fen@, king) == names_king(fen@.skip(i as int), king),
        decreases n - i,
    {
        let c = fen.get_char(i);
        proof {
            let rest = fen@.skip(i as int);
            assert(rest[0] == c);
            assert(rest.drop_first() == fen@.skip(i + 1));
        }
        if c == ' ' {
            return false;
        }
        if c == king {
            return true;
        }
        i = i + 1;
    }
    false
}

// ---------------------------------------------------------------------------
// What is taken on trust from the `chess` crate.
// ---------------------------------------------------------------------------

/// `chess::Board`, a board with all that belongs to a position; what is known
/// of one is what the functions below say.
#[verifier::external_type_specification]
#[verifier::external_body]
pub struct ExBoard(chess::Board);

/// What stands on each square of a board, as `chess::Board::piece_on` and
/// `chess::Board::color_on` report it.
pub uninterp spec fn board_squares(board: chess::Board) -> Seq<Option<Occupant>>;

/// The side to move, as `chess::Board::side_to_move` reports it.
pub uninterp spec fn board_side_to_move(board: chess::Board) -> Color;

/// Whether the side to move stands in check, that is, whether
/// `chess::Board::checkers` is not empty.
pub uninterp spec fn board_in_check(board: chess::Board) -> bool;

/// The moves of a board, in the order in which `chess::MoveGen::new_legal`
/// yields them.
pub uninterp spec fn board_generated_moves(board: chess::Board) -> Seq<Move>;

/// The board that `chess::Board::make_move_new` gives.
pub uninterp spec fn board_after(board: chess::Board, mv: Move) -> chess::Board;

/// Whether `chess::Board::is_sane` finds a board in order.
pub uninterp spec fn board_sane(board: chess::Board) -> bool;

/// `chess::Board::is_sane`: whether the board makes sense, with one king on
/// each side and the side that has moved not in check.
#[verifier::external_body]
pub(crate) fn is_sane(board: &chess::Board) -> (r: bool)
    ensures
        r == board_sane(*board),
{
    board.is_sane()
}

/// `chess::Board::piece_on`: the kind of man on `square`, which is the piece
/// part of the board's contents there. On a board that is in order a square
/// has a kind of man exactly when it has a colour.
#[verifier::external_body]
pub(crate) fn piece_on(board: &chess::Board, square: u8) -> (r: Option<Piece>)
    requires
        board_sane(*board),
        square < 64,
    ensures
        r == match board_squares(*board)[square as int] {
            Some(occupant) => Some(occupant.piece),
            None => None,
        },
{
    match board.piece_on(chess::ALL_SQUARES[square as usize]) {
        Some(chess::Piece::Pawn) => Some(Piece::Pawn),
        Some(chess::Piece::Knight) => Some(Piece::Knight),
        Some(chess::Piece::Bishop) => Some(Piece::Bishop),
        Some(chess::Piece::Rook) => Some(Piece::Rook),
        Some(chess::Piece::Queen) => Some(Piece::Queen),
        Some(chess::Piece::King) => Some(Piece::King),
        None => None,
    }
}

/// `chess::Board::color_on`: the side whose man stands on `square`, which is
/// the colour part of the board's contents there, on a board that is in order.
#[verifier::external_body]
pub(crate) fn color_on(board: &chess::Board, square: u8) -> (r: Option<Color>)
    requires
        board_sane(*board),
        square < 64,
    ensures
        r == match board_squares(*board)[square as int] {
            Some(occupant) => Some(occupant.color),
            None => None,
        },
{
    match board.color_on(chess::ALL_SQUARES[square as usize]) {
        Some(chess::Color::White) => Some(Color::White),
        Some(chess::Color::Black) => Some(Color::Black),
        None => None,
    }
}

/// `chess::Board::side_to_move`.
#[verifier::external_body]
pub(crate) fn side_to_move(board: &chess::Board) -> (r: Color)
    ensures
        r == board_side_to_move(*board),
{
    match board.side_to_move() {
        chess::Color::White => Color::White,
        chess::Color::Black => Color::Black,
    }
}

/// `chess::Board::checkers`: the side to move is in check exactly when some
/// man gives check.
#[verifier::external_body]
pub(crate) fn in_check(board: &chess::Board) -> (r: bool)
    ensures
        r == board_in_check(*board),
{
    *board.checkers() != chess::EMPTY
}

/// `chess::MoveGen::new_legal`: every move that the generator yields, in its
/// order. Each move's squares lie on the board. The generator keeps a list
/// with room for the men of a game and looks up the king's square unchecked,
/// so the board must be playable.
#[verifier::external_body]
pub(crate) fn generated_moves(board: &chess::Board) -> (r: Vec<Move>)
    requires
        playable(*board),
    ensures
        r@ == board_generated_moves(*board),
        forall|i: int| 0 <= i < r@.len() ==> (#[trigger] r@[i]).from < 64 && r@[i].to < 64,
{
    chess::MoveGen::new_legal(board)
        .map(|m| Move {
            from: m.get_source().to_int(),
            to: m.get_dest().to_int(),
            promotion: match m.get_promotion() {
                Some(chess::Piece::Queen) => Some(Piece::Queen),
                Some(chess::Piece::Rook) => Some(Piece::Rook),
                Some(chess::Piece::Bishop) => Some(Piece::Bishop),
                Some(chess::Piece::Knight) => Some(Piece::Knight),
                Some(chess::Piece::Pawn) => Some(Piece::Pawn),
                Some(chess::Piece::King) => Some(Piece::King),
                None => None,
            },
        })
        .collect()
}

/// `chess::Board::make_move_new`, for a move that the generator yields on a
/// playable board. Nothing is claimed of the board reached but that it is
/// the one the crate makes.
#[verifier::external_body]
pub(crate) fn make_move(board: &chess::Board, mv: Move) -> (r: chess::Board)
    requires
        playable(*board),
        board_generated_moves(*board).contains(mv),
    ensures
        r == board_after(*board, mv),
{
    let promotion = match mv.promotion {
        Some(Piece::Queen) => Some(chess::Piece::Queen),
        Some(Piece::Rook) => Some(chess::Piece::Rook),
        Some(Piece::Bishop) => Some(chess::Piece::Bishop),
        Some(Piece::Knight) => Some(chess::Piece::Knight),
        Some(Piece::Pawn) => Some(chess::Piece::Pawn),
        Some(Piece::King) => Some(chess::Piece::King),
        None => None,
    };
    let source = chess::ALL_SQUARES[mv.from as usize];
    let dest = chess::ALL_SQUARES[mv.to as usize];
    board.make_move_new(chess::ChessMove::new(source, dest, promotion))
}

/// The hash that `chess::Board::get_hash` gives for a board.
pub uninterp spec fn board_hash(board: chess::Board) -> u64;

/// `chess::Board::get_hash`: the Zobrist hash of the board, made of the
/// board and of keys that are compiled into the `chess` crate.
#[verifier::external_body]
pub(crate) fn position_hash(board: &chess::Board) -> (r: u64)
    ensures
        r == board_hash(*board),
{
    board.get_hash()
}

/// The board that `chess::Board::from_str` reads from a position in
/// Forsyth-Edwards notation, if it reads one.
pub uninterp spec fn board_of_fen(fen: Seq<char>) -> Option<chess::Board>;

/// `chess::Board::from_str`: the board that a position in Forsyth-Edwards
/// notation describes; `None` where the crate rejects the text, as it does
/// every board that is not sane. The crate looks for the king of the side to
/// move before it has made sure that there is one, and lets a rank that is
/// too long run over squares already written, so the first field must fit
/// the board and name both kings.
#[verifier::external_body]
pub(crate) fn board_from_fen(fen: &str) -> (r: Option<chess::Board>)
    requires
        field_fits(fen@, 0, 0, 0),
        names_king(fen@, 'K'),
        names_king(fen@, 'k'),
    ensures
        r == board_of_fen(fen@),
        r matches Some(board) ==> board_sane(board),
{
    <chess::Board as std::str::FromStr>::from_str(fen).ok()
}

} // verus!
