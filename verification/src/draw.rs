//! Draws that end a line of play: too little material to mate, a position
//! that has come up three times, fifty moves without progress.

use vstd::prelude::*;

use crate::board::{Color, Occupant, Piece, Placement};
use crate::evaluation::{count_of, count_pieces, marks};
use crate::sums::lemma_total_bounds;
use crate::search::HistoryEntry;

verus! {

/// How many plies without a pawn move or a capture end the game.
pub const FIFTY_MOVE_PLIES: usize = 100;

/// How many of the first `n` entries carry `hash`.
pub open spec fn occurrences(history: Seq<HistoryEntry>, hash: u64, n: int) -> int
    decreases n,
{
    if n <= 0 {
        0
    } else {
        occurrences(history, hash, n - 1) + if history[n - 1].hash == hash {
            1int
        } else {
            0int
        }
    }
}

/// A position is repeated when its hash stands at least three times in the
/// history.
pub open spec fn threefold_repetition(history: Seq<HistoryEntry>, hash: u64) -> bool {
    occurrences(history, hash, history.len() as int) >= 3
}

/// The fifty-move rule holds when the last `FIFTY_MOVE_PLIES` plies of the
/// history are all reversible: a pawn move or a capture starts the count
/// again.
pub open spec fn fifty_move_rule(history: Seq<HistoryEntry>) -> bool {
    history.len() >= FIFTY_MOVE_PLIES && forall|j: int|
        history.len() - FIFTY_MOVE_PLIES <= j < history.len() ==> (
        #[trigger] history[j]).is_reversible_move
}

/// How many men of one side are knights or bishops.
pub open spec fn minors_of(squares: Seq<Option<Occupant>>, color: Color) -> int {
    count_of(squares, Piece::Knight, color) + count_of(squares, Piece::Bishop, color)
}

/// Whether a kind of man is on the board at all.
pub open spec fn present(squares: Seq<Option<Occupant>>, piece: Piece) -> bool {
    count_of(squares, piece, Color::White) + count_of(squares, piece, Color::Black) > 0
}

/// Neither side can mate: no pawn, rook or queen is left, each side has at
/// most one minor piece, and no kind of minor piece stands on both sides.
pub open spec fn insufficient_material(squares: Seq<Option<Occupant>>) -> bool {
    &&& !present(squares, Piece::Pawn)
    &&& !present(squares, Piece::Rook)
    &&& !present(squares, Piece::Queen)
    &&& minors_of(squares, Color::White) <= 1
    &&& minors_of(squares, Color::Black) <= 1
    &&& !(count_of(squares, Piece::Bishop, Color::White) > 0 && count_of(
        squares,
        Piece::Bishop,
        Color::Black,
    ) > 0)
    &&& !(count_of(squares, Piece::Knight, Color::White) > 0 && count_of(
        squares,
        Piece::Knight,
        Color::Black,
    ) > 0)
}

/// Whether the line has to be scored as a draw.
pub open spec fn drawn(squares: Seq<Option<Occupant>>, history: Seq<HistoryEntry>, hash: u64) -> bool {
    insufficient_material(squares) || threefold_repetition(history, hash) || fifty_move_rule(
        history,
    )
}

/// Counting never goes down and never outruns the entries counted.
pub proof fn lemma_occurrences_bounds(history: Seq<HistoryEntry>, hash: u64, n: int)
    requires
        0 <= n,
    ensures
        0 <= occurrences(history, hash, n) <= n,
    decreases n,
{
    if n > 0 {
        lemma_occurrences_bounds(history, hash, n - 1);
    }
}

/// Counting over more entries never gives less.
pub proof fn lemma_occurrences_grow(history: Seq<HistoryEntry>, hash: u64, m: int, n: int)
    requires
        0 <= m <= n,
    ensures
        occurrences(history, hash, m) <= occurrences(history, hash, n),
    decreases n,
{
    if m < n {
        lemma_occurrences_grow(history, hash, m, n - 1);
    }
}

/// Three plies that led to the same position make a repetition: if `hash`
/// stands at three different places of the history, the draw is there.
pub proof fn lemma_three_repeats(history: Seq<HistoryEntry>, hash: u64, i: int, j: int, k: int)
    requires
        0 <= i < j < k < history.len(),
        history[i].hash == hash,
        history[j].hash == hash,
        history[k].hash == hash,
    ensures
        threefold_repetition(history, hash),
{
    lemma_occurrences_bounds(history, hash, i);
    assert(occurrences(history, hash, i + 1) >= 1);
    lemma_occurrences_grow(history, hash, i + 1, j);
    assert(occurrences(history, hash, j + 1) >= 2);
    lemma_occurrences_grow(history, hash, j + 1, k);
    assert(occurrences(history, hash, k + 1) >= 3);
    lemma_occurrences_grow(history, hash, k + 1, history.len() as int);
}

/// A hundred reversible plies at the end of the history bring the
/// fifty-move rule.
pub proof fn lemma_hundred_quiet_plies(history: Seq<HistoryEntry>)
    requires
        history.len() >= FIFTY_MOVE_PLIES,
        forall|j: int|
            history.len() - FIFTY_MOVE_PLIES <= j < history.len() ==> history[j].is_reversible_move,
    ensures
        fifty_move_rule(history),
{
}

/// A pawn move or a capture starts the count again: while one stands among
/// the last hundred plies, the rule does not hold.
pub proof fn lemma_count_starts_again(history: Seq<HistoryEntry>, j: int)
    requires
        0 <= j < history.len(),
        history.len() - FIFTY_MOVE_PLIES <= j,
        !history[j].is_reversible_move,
    ensures
        !fifty_move_rule(history),
{
}

/// Where no man of a kind and side stands, the count is zero.
pub proof fn lemma_count_absent(squares: Seq<Option<Occupant>>, piece: Piece, color: Color)
    requires
        forall|i: int| 0 <= i < 64 ==> squares[i] != Some(Occupant { piece, color }),
    ensures
        count_of(squares, piece, color) == 0,
{
    lemma_total_bounds(marks(squares, piece, color), 0, 64);
}

/// Whether a square is empty or holds a king.
pub open spec fn only_king(occupant: Option<Occupant>) -> bool {
    match occupant {
        Some(o) => o.piece == Piece::King,
        None => true,
    }
}

/// King against king is a draw: a board on which nothing but kings stands has
/// too little material, wherever the kings are.
pub proof fn lemma_bare_kings(squares: Seq<Option<Occupant>>)
    requires
        forall|i: int| 0 <= i < 64 ==> only_king(#[trigger] squares[i]),
    ensures
        insufficient_material(squares),
{
    lemma_count_absent(squares, Piece::Pawn, Color::White);
    lemma_count_absent(squares, Piece::Pawn, Color::Black);
    lemma_count_absent(squares, Piece::Rook, Color::White);
    lemma_count_absent(squares, Piece::Rook, Color::Black);
    lemma_count_absent(squares, Piece::Queen, Color::White);
    lemma_count_absent(squares, Piece::Queen, Color::Black);
    lemma_count_absent(squares, Piece::Knight, Color::White);
    lemma_count_absent(squares, Piece::Knight, Color::Black);
    lemma_count_absent(squares, Piece::Bishop, Color::White);
    lemma_count_absent(squares, Piece::Bishop, Color::Black);
}

/// Whether the material suffices is read off the first 64 squares.
pub proof fn lemma_material_agrees(a: Seq<Option<Occupant>>, b: Seq<Option<Occupant>>)
    requires
        forall|i: int| 0 <= i < 64 ==> a[i] == b[i],
    ensures
        insufficient_material(a) == insufficient_material(b),
{
    assert forall|piece: Piece, color: Color| count_of(a, piece, color) == count_of(
        b,
        piece,
        color,
    ) by {
        assert(marks(a, piece, color) =~= marks(b, piece, color));
    }
}

/// Whether `hash` stands at least three times in the history.
pub fn is_threefold_repetition(history: &Vec<HistoryEntry>, hash: u64) -> (r: bool)
    ensures
        r == threefold_repetition(history@, hash),
{
    let mut count: usize = 0;
    let mut i: usize = 0;
    while i < history.len()
        invariant
            i <= history.len(),
            count == occurrences(history@, hash, i as int),
            count <= i,
        decreases history.len() - i,
    {
        if history[i].hash == hash {
            count = count + 1;
        }
        i = i + 1;
    }
    count >= 3
}

/// Whether the last hundred plies of the history are all reversible.
pub fn is_fifty_move_rule(history: &Vec<HistoryEntry>) -> (r: bool)
    ensures
        r == fifty_move_rule(history@),
{
    let n = history.len();
    if n < FIFTY_MOVE_PLIES {
        return false;
    }
    let mut i: usize = n - FIFTY_MOVE_PLIES;
    while i < n
        invariant
            n == history.len(),
            n >= FIFTY_MOVE_PLIES,
            n - FIFTY_MOVE_PLIES <= i <= n,
            forall|j: int| n - FIFTY_MOVE_PLIES <= j < i ==> (#[trigger] history@[j]).is_reversible_move,
        decreases n - i,
    {
        if !history[i].is_reversible_move {
            return false;
        }
        i = i + 1;
    }
    true
}

/// Whether neither side has the material to mate.
pub fn is_insufficient_material(placement: &Placement) -> (r: bool)
    requires
        placement.wf(),
    ensures
        r == insufficient_material(placement@),
{
    let white_pawns = count_pieces(placement, Piece::Pawn, Color::White);
    let black_pawns = count_pieces(placement, Piece::Pawn, Color::Black);
    let white_rooks = count_pieces(placement, Piece::Rook, Color::White);
    let black_rooks = count_pieces(placement, Piece::Rook, Color::Black);
    let white_queens = count_pieces(placement, Piece::Queen, Color::White);
    let black_queens = count_pieces(placement, Piece::Queen, Color::Black);
    if white_pawns > 0 || black_pawns > 0 || white_rooks > 0 || black_rooks > 0 || white_queens
        > 0 || black_queens > 0 {
        return false;
    }
    let white_bishops = count_pieces(placement, Piece::Bishop, Color::White);
    let black_bishops = count_pieces(placement, Piece::Bishop, Color::Black);
    let white_knights = count_pieces(placement, Piece::Knight, Color::White);
    let black_knights = count_pieces(placement, Piece::Knight, Color::Black);
    white_knights + white_bishops <= 1 && black_knights + black_bishops <= 1 && !(white_bishops > 0
        && black_bishops > 0) && !(white_knights > 0 && black_knights > 0)
}

/// Whether the position reached has to be scored as a draw.
pub fn is_draw(placement: &Placement, history: &Vec<HistoryEntry>, hash: u64) -> (r: bool)
    requires
        placement.wf(),
    ensures
        r == drawn(placement@, history@, hash),
{
    is_insufficient_material(placement) || is_threefold_repetition(history, hash)
        || is_fifty_move_rule(history)
}

} // verus!
