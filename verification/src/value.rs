//! What a position is worth: the value that the search is after, stated
//! without any of the search's shortcuts, and what follows from it.

use vstd::prelude::*;

use crate::board::{
    board_after, board_hash, board_in_check, board_legal_moves, board_side_to_move,
    board_squares, is_irreversible, Move,
};
use crate::draw::drawn;
use crate::evaluation::board_evaluation;
use crate::ordering::capturing_moves;
use crate::search::HistoryEntry;
use crate::{INFINITY, MAX_PLY};

verus! {

/// A window that a search can be asked for.
pub open spec fn window_ok(alpha: i32, beta: i32) -> bool {
    -INFINITY <= alpha < beta <= INFINITY
}

/// A score pulled into the window.
pub open spec fn clamped(score: int, alpha: int, beta: int) -> int {
    if score >= beta {
        beta
    } else if score <= alpha {
        alpha
    } else {
        score
    }
}

/// The depth a node is searched to: one more than asked where the side to
/// move stands in check.
pub open spec fn extended(board: chess::Board, depth: int) -> int {
    if board_in_check(board) {
        depth + 1
    } else {
        depth
    }
}

/// What a node without a legal move is worth: mated where it stands in check,
/// and the sooner the worse; a draw where it does not.
pub open spec fn no_move_score(board: chess::Board, ply: int) -> int {
    if board_in_check(board) {
        -INFINITY + ply
    } else {
        0
    }
}

/// The captures that the side to move has on a board, in the generator's order.
pub open spec fn board_captures(board: chess::Board) -> Seq<Move> {
    capturing_moves(board_legal_moves(board), board_squares(board), board_side_to_move(board))
}

/// What a position is worth when only captures are played on, `ply` plies
/// from the root: at the ply ceiling its static evaluation, and below it the
/// best of the static evaluation and of what each capture leads to.
pub open spec fn quiescence_value(board: chess::Board, ply: int) -> int
    decreases MAX_PLY - ply, 1int, 0int,
{
    if ply >= MAX_PLY {
        board_evaluation(board)
    } else {
        best_capture(board, ply, board_captures(board).len() as int)
    }
}

/// The best of the static evaluation and of what each of the first `n`
/// captures leads to.
pub open spec fn best_capture(board: chess::Board, ply: int, n: int) -> int
    decreases MAX_PLY - ply, 0int, n,
{
    if n <= 0 || ply >= MAX_PLY {
        board_evaluation(board)
    } else {
        let before = best_capture(board, ply, n - 1);
        let reply = -quiescence_value(board_after(board, board_captures(board)[n - 1]), ply + 1);
        if reply > before {
            reply
        } else {
            before
        }
    }
}

/// What the capture search returns for a node, if it is not told to end:
/// the worth of the position, pulled into the window below the ply ceiling.
pub open spec fn capture_result(board: chess::Board, alpha: int, beta: int, ply: int) -> int {
    if ply >= MAX_PLY {
        quiescence_value(board, ply)
    } else {
        clamped(quiescence_value(board, ply), alpha, beta)
    }
}

/// Trying more captures never makes a position worth less.
pub proof fn lemma_best_capture_grows(board: chess::Board, ply: int, m: int, n: int)
    requires
        0 <= m <= n,
    ensures
        best_capture(board, ply, m) <= best_capture(board, ply, n),
    decreases n,
{
    if m < n {
        lemma_best_capture_grows(board, ply, m, n - 1);
    }
}

/// Standing pat: a position is worth at least its static evaluation to the
/// side to move, which need not capture.
pub proof fn lemma_quiescence_stands_pat(board: chess::Board, ply: int)
    ensures
        quiescence_value(board, ply) >= board_evaluation(board),
{
    if ply < MAX_PLY {
        lemma_best_capture_grows(board, ply, 0, board_captures(board).len() as int);
    }
}

/// Without a capture, a position is worth its static evaluation.
pub proof fn lemma_quiescence_leaf(board: chess::Board, ply: int)
    requires
        board_captures(board).len() == 0,
    ensures
        quiescence_value(board, ply) == board_evaluation(board),
{
}

/// The entry that a move adds to the history: the hash of the position it
/// leads to, and whether it can be taken back.
pub open spec fn entry_after(board: chess::Board, mv: Move) -> HistoryEntry {
    HistoryEntry {
        hash: board_hash(board_after(board, mv)),
        is_reversible_move: !is_irreversible(board_squares(board), mv),
    }
}

/// What a position is worth to the side to move when it is searched `depth`
/// plies deep, `ply` plies from the root, after the line `history`.
///
/// At the ply ceiling it is worth its static evaluation. A side in check is
/// searched one ply deeper. Where no depth is left, the position is worth
/// what the capture search makes of it. A side without a move is mated or
/// stalemated. Otherwise the position is worth its best reply.
pub open spec fn negamax_value(
    board: chess::Board,
    history: Seq<HistoryEntry>,
    depth: int,
    ply: int,
) -> int
    decreases MAX_PLY - ply, 2int, 0int,
{
    if ply >= MAX_PLY {
        board_evaluation(board)
    } else if extended(board, depth) <= 0 {
        quiescence_value(board, ply)
    } else if board_legal_moves(board).len() == 0 {
        no_move_score(board, ply)
    } else {
        best_reply(
            board,
            history,
            extended(board, depth),
            ply,
            board_legal_moves(board),
            board_legal_moves(board).len() as int,
        )
    }
}

/// The best of what the first `n` of `moves` lead to, and of what the first
/// leads to where `n` is less than one.
pub open spec fn best_reply(
    board: chess::Board,
    history: Seq<HistoryEntry>,
    remaining: int,
    ply: int,
    moves: Seq<Move>,
    n: int,
) -> int
    decreases MAX_PLY - ply, 1int, n,
{
    if ply >= MAX_PLY {
        0
    } else if n <= 1 {
        reply_value(board, history, remaining, ply, moves[0])
    } else {
        let before = best_reply(board, history, remaining, ply, moves, n - 1);
        let reply = reply_value(board, history, remaining, ply, moves[n - 1]);
        if reply > before {
            reply
        } else {
            before
        }
    }
}

/// What a move leads to: nothing where the position reached is a draw, else
/// what that position is worth to the other side, with the sign turned.
pub open spec fn reply_value(
    board: chess::Board,
    history: Seq<HistoryEntry>,
    remaining: int,
    ply: int,
    mv: Move,
) -> int
    decreases MAX_PLY - ply, 0int, 0int,
{
    if ply >= MAX_PLY {
        0
    } else {
        let reached = board_after(board, mv);
        let line = history.push(entry_after(board, mv));
        if drawn(board_squares(reached), line, board_hash(reached)) {
            0
        } else {
            -negamax_value(reached, line, remaining - 1, ply + 1)
        }
    }
}

/// What a search with the table switched off returns for a node, if it is
/// not told to end: the worth of the position, pulled into the window unless
/// the node is at the ply ceiling or has no move to try.
pub open spec fn search_result(
    board: chess::Board,
    history: Seq<HistoryEntry>,
    depth: int,
    alpha: int,
    beta: int,
    ply: int,
) -> int {
    let value = negamax_value(board, history, depth, ply);
    if ply >= MAX_PLY || (extended(board, depth) > 0 && board_legal_moves(board).len() == 0) {
        value
    } else {
        clamped(value, alpha, beta)
    }
}

/// No reply is better than the best.
pub proof fn lemma_best_reply_bounds(
    board: chess::Board,
    history: Seq<HistoryEntry>,
    remaining: int,
    ply: int,
    moves: Seq<Move>,
    n: int,
    j: int,
)
    requires
        0 <= j < n,
        ply < MAX_PLY,
    ensures
        reply_value(board, history, remaining, ply, moves[j]) <= best_reply(
            board,
            history,
            remaining,
            ply,
            moves,
            n,
        ),
    decreases n,
{
    if n > 1 && j < n - 1 {
        lemma_best_reply_bounds(board, history, remaining, ply, moves, n - 1, j);
    }
}

/// The best reply is the reply to one of the moves.
pub proof fn lemma_best_reply_attained(
    board: chess::Board,
    history: Seq<HistoryEntry>,
    remaining: int,
    ply: int,
    moves: Seq<Move>,
    n: int,
) -> (j: int)
    requires
        1 <= n,
        ply < MAX_PLY,
    ensures
        0 <= j < n,
        reply_value(board, history, remaining, ply, moves[j]) == best_reply(
            board,
            history,
            remaining,
            ply,
            moves,
            n,
        ),
    decreases n,
{
    if n <= 1 {
        0
    } else {
        let before = best_reply(board, history, remaining, ply, moves, n - 1);
        let reply = reply_value(board, history, remaining, ply, moves[n - 1]);
        if reply > before {
            n - 1
        } else {
            lemma_best_reply_attained(board, history, remaining, ply, moves, n - 1)
        }
    }
}

/// The best reply does not depend on the order in which the moves are
/// tried: two lists of the same moves have the same best reply.
pub proof fn lemma_best_reply_same_moves(
    board: chess::Board,
    history: Seq<HistoryEntry>,
    remaining: int,
    ply: int,
    a: Seq<Move>,
    b: Seq<Move>,
)
    requires
        a.len() >= 1,
        ply < MAX_PLY,
        forall|mv: Move| a.contains(mv) <==> b.contains(mv),
    ensures
        best_reply(board, history, remaining, ply, a, a.len() as int) == best_reply(
            board,
            history,
            remaining,
            ply,
            b,
            b.len() as int,
        ),
{
    assert(a.contains(a[0]));
    let i = lemma_best_reply_attained(board, history, remaining, ply, a, a.len() as int);
    assert(a.contains(a[i]));
    let k = choose|k: int| 0 <= k < b.len() && b[k] == a[i];
    lemma_best_reply_bounds(board, history, remaining, ply, b, b.len() as int, k);
    let j = lemma_best_reply_attained(board, history, remaining, ply, b, b.len() as int);
    assert(b.contains(b[j]));
    let l = choose|l: int| 0 <= l < a.len() && a[l] == b[j];
    lemma_best_reply_bounds(board, history, remaining, ply, a, a.len() as int, l);
}

/// A mate in one is seen: where a legal move leads to a position that is no
/// draw and in which the side to move is in check without a move, the move
/// is worth the mate, and the position is worth no less.
pub proof fn lemma_mate_in_one(
    board: chess::Board,
    history: Seq<HistoryEntry>,
    depth: int,
    ply: int,
    mv: Move,
)
    requires
        0 <= ply,
        ply + 1 < MAX_PLY,
        extended(board, depth) >= 1,
        board_legal_moves(board).contains(mv),
        board_legal_moves(board_after(board, mv)).len() == 0,
        board_in_check(board_after(board, mv)),
        !drawn(
            board_squares(board_after(board, mv)),
            history.push(entry_after(board, mv)),
            board_hash(board_after(board, mv)),
        ),
    ensures
        reply_value(board, history, extended(board, depth), ply, mv) == INFINITY - (ply + 1),
        negamax_value(board, history, depth, ply) >= INFINITY - (ply + 1),
{
    let moves = board_legal_moves(board);
    let j = choose|j: int| 0 <= j < moves.len() && moves[j] == mv;
    lemma_best_reply_bounds(board, history, extended(board, depth), ply, moves, moves.len() as int, j);
}

/// A position in which the side to move is mated is worth the mate, and the
/// sooner the mate the less.
pub proof fn lemma_mated_value(board: chess::Board, history: Seq<HistoryEntry>, depth: int, ply: int)
    requires
        0 <= depth,
        0 <= ply < MAX_PLY,
        board_legal_moves(board).len() == 0,
        board_in_check(board),
    ensures
        negamax_value(board, history, depth, ply) == -INFINITY + ply,
{
}

/// With no depth left and no check, a position is worth what the capture
/// search makes of it.
pub proof fn lemma_horizon_value(board: chess::Board, history: Seq<HistoryEntry>, ply: int)
    requires
        !board_in_check(board),
    ensures
        negamax_value(board, history, 0, ply) == quiescence_value(board, ply),
{
}

} // verus!
