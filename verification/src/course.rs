//! The course of a search, step by step: what the search returns, what it
//! leaves in the table and which line it keeps, as functions of what it is
//! given.

use vstd::prelude::*;

use crate::board::{
    board_after, board_hash, board_legal_moves, board_side_to_move, board_squares, is_line, Move,
};
use crate::draw::drawn;
use crate::evaluation::board_evaluation;
use crate::ordering::{lemma_ordered_contains, ordered_moves};
use crate::search::HistoryEntry;
use crate::table::{bucket_of, entry_of, lookup_in, probe_result, TranspositionEntry};
use crate::value::{
    best_capture, best_reply, board_captures, capture_result, clamped, entry_after, extended,
    lemma_best_capture_grows, lemma_best_reply_same_moves, lemma_quiescence_stands_pat,
    negamax_value, no_move_score, reply_value, search_result,
};
use crate::{INFINITY, MAX_PLY};

verus! {

/// What the search of a node comes to: its score, the buckets of the table
/// after it, and the line it keeps.
pub struct Found {
    pub score: int,
    pub slots: Seq<(u64, TranspositionEntry)>,
    pub line: Seq<Move>,
}

/// How far the capture search of a node has come: the best score so far, the
/// line kept, and whether a capture has reached beta.
pub struct Taken {
    pub best: int,
    pub line: Seq<Move>,
    pub cut: bool,
}

/// How far a node has come with its moves: the best score so far, whether a
/// move has raised alpha, the highest score seen and the move that had it,
/// the buckets of the table, the line kept, and whether a move has reached
/// beta.
pub struct Tried {
    pub best: int,
    pub pvs: bool,
    pub top: int,
    pub top_move: Move,
    pub slots: Seq<(u64, TranspositionEntry)>,
    pub line: Seq<Move>,
    pub cut: bool,
}

/// The first move of a line, if it has one.
pub open spec fn head_of(line: Seq<Move>) -> Option<Move> {
    if line.len() > 0 {
        Some(line[0])
    } else {
        None
    }
}

/// The line that a node hands back after it has tried its moves: the root
/// never hands back an empty line, but the move it liked best.
pub open spec fn root_line(ply: int, line: Seq<Move>, mv: Move) -> Seq<Move> {
    if ply == 0 && line.len() == 0 {
        seq![mv]
    } else {
        line
    }
}

/// What a table answers for a node: nothing where it is switched off and
/// nothing at the root, and elsewhere what the entry under the position's
/// hash gives, if it gives anything.
pub open spec fn answer_of(
    enabled: bool,
    slots: Seq<(u64, TranspositionEntry)>,
    board: chess::Board,
    remaining: int,
    alpha: int,
    beta: int,
    ply: int,
) -> Option<int> {
    if enabled && 0 < ply <= u8::MAX && 0 <= remaining <= u8::MAX {
        probe_result(lookup_in(slots, board_hash(board)), remaining as u8, alpha, beta, ply as u8)
    } else {
        None
    }
}

/// The buckets after an entry is stored: as they were where the table is
/// switched off.
pub open spec fn kept_in(
    enabled: bool,
    slots: Seq<(u64, TranspositionEntry)>,
    hash: u64,
    entry: TranspositionEntry,
) -> Seq<(u64, TranspositionEntry)> {
    if enabled {
        slots.update(bucket_of(hash, slots.len()), (hash, entry))
    } else {
        slots
    }
}

/// The capture search of a node: its score and the line it keeps. At the
/// ply ceiling the score is the static evaluation; a static evaluation that
/// reaches beta ends the search with beta; else the captures are tried in
/// turn, from the better of alpha and the static evaluation.
pub open spec fn capture_search(
    board: chess::Board,
    alpha: int,
    beta: int,
    ply: int,
    line: Seq<Move>,
) -> (int, Seq<Move>)
    decreases MAX_PLY - ply, 1int, 0int,
{
    let stand = board_evaluation(board);
    if ply >= MAX_PLY {
        (stand, line)
    } else if stand >= beta {
        (beta, line)
    } else {
        let start = if stand > alpha {
            stand
        } else {
            alpha
        };
        let taken = capture_loop(board, start, beta, ply, line, board_captures(board).len() as int);
        (
            if taken.cut {
                beta
            } else {
                taken.best
            },
            taken.line,
        )
    }
}

/// The capture search after the first `n` captures: a capture that reaches
/// beta ends it; one that betters the best score takes its place and heads
/// the line, followed by the line of the search behind it.
pub open spec fn capture_loop(
    board: chess::Board,
    start: int,
    beta: int,
    ply: int,
    line: Seq<Move>,
    n: int,
) -> Taken
    decreases MAX_PLY - ply, 0int, n,
{
    if n <= 0 || ply >= MAX_PLY {
        Taken { best: start, line, cut: false }
    } else {
        let before = capture_loop(board, start, beta, ply, line, n - 1);
        if before.cut {
            before
        } else {
            let mv = board_captures(board)[n - 1];
            let reply = capture_search(
                board_after(board, mv),
                -beta,
                -before.best,
                ply + 1,
                Seq::empty(),
            );
            let score = -reply.0;
            if score >= beta {
                Taken { best: before.best, line: before.line, cut: true }
            } else if score > before.best {
                Taken { best: score, line: seq![mv] + reply.1, cut: false }
            } else {
                before
            }
        }
    }
}

/// Once a capture has reached beta, the capture search is over.
pub proof fn lemma_capture_cut_stays(
    board: chess::Board,
    start: int,
    beta: int,
    ply: int,
    line: Seq<Move>,
    m: int,
    n: int,
)
    requires
        0 <= m <= n,
        capture_loop(board, start, beta, ply, line, m).cut,
    ensures
        capture_loop(board, start, beta, ply, line, n) == capture_loop(
            board,
            start,
            beta,
            ply,
            line,
            m,
        ),
    decreases n,
{
    if m < n {
        lemma_capture_cut_stays(board, start, beta, ply, line, m, n - 1);
    }
}

/// The search of a node: its score, the table after it and the line it keeps.
///
/// A line that cannot be played from the node is dropped first. At the ply
/// ceiling the score is the static evaluation; with no depth left the capture
/// search decides; where the table answers, its answer stands; a node without
/// a move is mated or stalemated. Else the moves are tried in their order,
/// and the node leaves its entry in the table.
pub open spec fn node_search(
    board: chess::Board,
    history: Seq<HistoryEntry>,
    enabled: bool,
    slots: Seq<(u64, TranspositionEntry)>,
    depth: int,
    alpha: int,
    beta: int,
    ply: int,
    line: Seq<Move>,
) -> Found
    decreases MAX_PLY - ply, 3int, 0int,
{
    let hint = if is_line(board, line) {
        line
    } else {
        Seq::empty()
    };
    let remaining = extended(board, depth);
    if ply >= MAX_PLY {
        Found { score: board_evaluation(board), slots, line: hint }
    } else if remaining <= 0 {
        let taken = capture_search(board, alpha, beta, ply, hint);
        Found { score: taken.0, slots, line: taken.1 }
    } else {
        match answer_of(enabled, slots, board, remaining, alpha, beta, ply) {
            Some(answer) => Found { score: answer, slots, line: hint },
            None => if board_legal_moves(board).len() == 0 {
                Found { score: no_move_score(board, ply), slots, line: hint }
            } else {
                let ordered = ordered_moves(
                    board_legal_moves(board),
                    board_squares(board),
                    board_side_to_move(board),
                    head_of(hint),
                );
                let tried = move_loop(
                    board,
                    history,
                    enabled,
                    slots,
                    remaining,
                    alpha,
                    beta,
                    ply,
                    ordered,
                    hint,
                    ordered.len() as int,
                );
                if tried.cut {
                    Found { score: beta, slots: tried.slots, line: tried.line }
                } else {
                    Found {
                        score: tried.best,
                        slots: kept_in(
                            enabled,
                            tried.slots,
                            board_hash(board),
                            entry_of(
                                remaining as u8,
                                tried.best,
                                alpha,
                                beta,
                                ply as u8,
                                tried.top_move,
                            ),
                        ),
                        line: root_line(ply, tried.line, tried.top_move),
                    }
                }
            },
        }
    }
}

/// A node after the first `n` of its moves are tried; a move that reaches
/// beta ends the trying.
pub open spec fn move_loop(
    board: chess::Board,
    history: Seq<HistoryEntry>,
    enabled: bool,
    slots: Seq<(u64, TranspositionEntry)>,
    remaining: int,
    alpha: int,
    beta: int,
    ply: int,
    ordered: Seq<Move>,
    line: Seq<Move>,
    n: int,
) -> Tried
    decreases MAX_PLY - ply, 2int, n,
{
    if n <= 0 || ply >= MAX_PLY {
        Tried {
            best: alpha,
            pvs: false,
            top: -INFINITY - 1,
            top_move: ordered[0],
            slots,
            line,
            cut: false,
        }
    } else {
        let before = move_loop(
            board,
            history,
            enabled,
            slots,
            remaining,
            alpha,
            beta,
            ply,
            ordered,
            line,
            n - 1,
        );
        if before.cut {
            before
        } else {
            try_move(board, history, enabled, remaining, alpha, beta, ply, ordered[n - 1], before)
        }
    }
}

/// What a move leads to, seen from the node that tries it: the search of
/// the position reached, with its score still that of the other side.
///
/// A move into a drawn position scores nothing and is not searched. Else
/// the position reached is searched one ply less deep: with the full window
/// as long as no move has raised alpha, after that with an empty window
/// first, and with the full one again where the first score lands inside the
/// window.
pub open spec fn move_reply(
    board: chess::Board,
    history: Seq<HistoryEntry>,
    enabled: bool,
    slots: Seq<(u64, TranspositionEntry)>,
    remaining: int,
    best: int,
    beta: int,
    ply: int,
    mv: Move,
    pvs: bool,
) -> Found
    decreases MAX_PLY - ply, 1int, 0int,
{
    let reached = board_after(board, mv);
    let played = history.push(entry_after(board, mv));
    if ply >= MAX_PLY || drawn(board_squares(reached), played, board_hash(reached)) {
        Found { score: 0, slots, line: Seq::empty() }
    } else if pvs {
        let first = node_search(
            reached,
            played,
            enabled,
            slots,
            remaining - 1,
            -best - 1,
            -best,
            ply + 1,
            Seq::empty(),
        );
        if -first.score > best && -first.score < beta {
            node_search(
                reached,
                played,
                enabled,
                first.slots,
                remaining - 1,
                -beta,
                -best,
                ply + 1,
                first.line,
            )
        } else {
            first
        }
    } else {
        node_search(
            reached,
            played,
            enabled,
            slots,
            remaining - 1,
            -beta,
            -best,
            ply + 1,
            Seq::empty(),
        )
    }
}

/// A node after one more move is tried. A score that reaches beta ends the
/// trying and leaves a lower bound in the table; a score above the best so
/// far takes its place, and the move heads the line.
pub open spec fn try_move(
    board: chess::Board,
    history: Seq<HistoryEntry>,
    enabled: bool,
    remaining: int,
    alpha: int,
    beta: int,
    ply: int,
    mv: Move,
    before: Tried,
) -> Tried
    decreases MAX_PLY - ply, 1int, 1int,
{
    let reply = move_reply(
        board,
        history,
        enabled,
        before.slots,
        remaining,
        before.best,
        beta,
        ply,
        mv,
        before.pvs,
    );
    let score = -reply.score;
    let top = if score > before.top {
        score
    } else {
        before.top
    };
    let top_move = if score > before.top {
        mv
    } else {
        before.top_move
    };
    if score >= beta {
        Tried {
            best: before.best,
            pvs: before.pvs,
            top,
            top_move,
            slots: kept_in(
                enabled,
                reply.slots,
                board_hash(board),
                entry_of(remaining as u8, beta, alpha, beta, ply as u8, mv),
            ),
            line: root_line(ply, before.line, mv),
            cut: true,
        }
    } else if score > before.best {
        Tried {
            best: score,
            pvs: true,
            top,
            top_move,
            slots: reply.slots,
            line: seq![mv] + reply.line,
            cut: false,
        }
    } else {
        Tried {
            best: before.best,
            pvs: before.pvs,
            top,
            top_move,
            slots: reply.slots,
            line: before.line,
            cut: false,
        }
    }
}

/// Once a move has reached beta, the node is done with its moves.
pub proof fn lemma_move_cut_stays(
    board: chess::Board,
    history: Seq<HistoryEntry>,
    enabled: bool,
    slots: Seq<(u64, TranspositionEntry)>,
    remaining: int,
    alpha: int,
    beta: int,
    ply: int,
    ordered: Seq<Move>,
    line: Seq<Move>,
    m: int,
    n: int,
)
    requires
        0 <= m <= n,
        move_loop(board, history, enabled, slots, remaining, alpha, beta, ply, ordered, line, m).cut,
    ensures
        move_loop(board, history, enabled, slots, remaining, alpha, beta, ply, ordered, line, n)
            == move_loop(
            board,
            history,
            enabled,
            slots,
            remaining,
            alpha,
            beta,
            ply,
            ordered,
            line,
            m,
        ),
    decreases n,
{
    if m < n {
        lemma_move_cut_stays(
            board,
            history,
            enabled,
            slots,
            remaining,
            alpha,
            beta,
            ply,
            ordered,
            line,
            m,
            n - 1,
        );
    }
}

/// The search after `n` depths, each begun with the table and the line that
/// the depth before it left.
pub open spec fn deepening(
    board: chess::Board,
    history: Seq<HistoryEntry>,
    enabled: bool,
    slots: Seq<(u64, TranspositionEntry)>,
    n: int,
) -> Found
    decreases n,
{
    if n <= 0 {
        Found { score: 0, slots, line: Seq::empty() }
    } else {
        let before = deepening(board, history, enabled, slots, n - 1);
        node_search(
            board,
            history,
            enabled,
            before.slots,
            n,
            -INFINITY as int,
            INFINITY as int,
            0,
            before.line,
        )
    }
}

/// The capture search finds the worth of the position: however the captures
/// are cut short, its score is the best of standing pat and of every
/// capture, pulled into the window.
pub proof fn lemma_capture_value(
    board: chess::Board,
    alpha: int,
    beta: int,
    ply: int,
    line: Seq<Move>,
)
    requires
        alpha < beta,
    ensures
        capture_search(board, alpha, beta, ply, line).0 == capture_result(board, alpha, beta, ply),
    decreases MAX_PLY - ply, 1int, 0int,
{
    if ply < MAX_PLY {
        lemma_quiescence_stands_pat(board, ply);
        if board_evaluation(board) < beta {
            lemma_capture_loop_value(
                board,
                alpha,
                beta,
                ply,
                line,
                board_captures(board).len() as int,
            );
        }
    }
}

/// The capture search after `n` captures holds the best of standing pat and
/// of these captures, pulled into the window; where it was cut short, that
/// best reaches beta.
pub proof fn lemma_capture_loop_value(
    board: chess::Board,
    alpha: int,
    beta: int,
    ply: int,
    line: Seq<Move>,
    n: int,
)
    requires
        alpha < beta,
        ply < MAX_PLY,
        0 <= n <= board_captures(board).len(),
        board_evaluation(board) < beta,
    ensures
        ({
            let start = if board_evaluation(board) > alpha {
                board_evaluation(board)
            } else {
                alpha
            };
            let taken = capture_loop(board, start, beta, ply, line, n);
            &&& alpha <= taken.best < beta
            &&& (!taken.cut ==> taken.best == clamped(best_capture(board, ply, n), alpha, beta)
                && best_capture(board, ply, n) < beta)
            &&& (taken.cut ==> best_capture(board, ply, n) >= beta)
        }),
    decreases MAX_PLY - ply, 0int, n,
{
    if n > 0 {
        let start = if board_evaluation(board) > alpha {
            board_evaluation(board)
        } else {
            alpha
        };
        lemma_capture_loop_value(board, alpha, beta, ply, line, n - 1);
        let before = capture_loop(board, start, beta, ply, line, n - 1);
        if before.cut {
            lemma_best_capture_grows(board, ply, n - 1, n);
        } else {
            let mv = board_captures(board)[n - 1];
            lemma_capture_value(board_after(board, mv), -beta, -before.best, ply + 1, Seq::empty());
        }
    }
}

/// What a move leads to in the search stands to the window as its worth
/// does, with the table switched off.
pub proof fn lemma_reply_value(
    board: chess::Board,
    history: Seq<HistoryEntry>,
    slots: Seq<(u64, TranspositionEntry)>,
    remaining: int,
    best: int,
    beta: int,
    ply: int,
    mv: Move,
    pvs: bool,
)
    requires
        best < beta,
        0 <= ply < MAX_PLY,
    ensures
        ({
            let score = -move_reply(
                board,
                history,
                false,
                slots,
                remaining,
                best,
                beta,
                ply,
                mv,
                pvs,
            ).score;
            let worth = reply_value(board, history, remaining, ply, mv);
            &&& (score >= beta <==> worth >= beta)
            &&& (score > best <==> worth > best)
            &&& (best < score < beta ==> score == worth)
        }),
    decreases MAX_PLY - ply, 1int, 0int,
{
    let reached = board_after(board, mv);
    let played = history.push(entry_after(board, mv));
    if !drawn(board_squares(reached), played, board_hash(reached)) {
        if pvs {
            lemma_node_value(
                reached,
                played,
                slots,
                remaining - 1,
                -best - 1,
                -best,
                ply + 1,
                Seq::empty(),
            );
            let first = node_search(
                reached,
                played,
                false,
                slots,
                remaining - 1,
                -best - 1,
                -best,
                ply + 1,
                Seq::empty(),
            );
            lemma_node_value(
                reached,
                played,
                first.slots,
                remaining - 1,
                -beta,
                -best,
                ply + 1,
                first.line,
            );
        } else {
            lemma_node_value(
                reached,
                played,
                slots,
                remaining - 1,
                -beta,
                -best,
                ply + 1,
                Seq::empty(),
            );
        }
    }
}

/// A node that has tried `n` of its moves holds the best of what they lead
/// to, pulled into the window, with the table switched off; where the trying
/// was cut short, that best reaches beta.
pub proof fn lemma_loop_value(
    board: chess::Board,
    history: Seq<HistoryEntry>,
    slots: Seq<(u64, TranspositionEntry)>,
    remaining: int,
    alpha: int,
    beta: int,
    ply: int,
    ordered: Seq<Move>,
    line: Seq<Move>,
    n: int,
)
    requires
        alpha < beta,
        0 <= ply < MAX_PLY,
        0 <= n <= ordered.len(),
    ensures
        ({
            let tried = move_loop(
                board,
                history,
                false,
                slots,
                remaining,
                alpha,
                beta,
                ply,
                ordered,
                line,
                n,
            );
            let worth = best_reply(board, history, remaining, ply, ordered, n);
            &&& alpha <= tried.best < beta
            &&& (n == 0 ==> tried.best == alpha && !tried.cut)
            &&& (n > 0 && !tried.cut ==> tried.best == clamped(worth, alpha, beta) && worth < beta)
            &&& (n > 0 && tried.cut ==> worth >= beta)
        }),
    decreases MAX_PLY - ply, 2int, n,
{
    if n > 0 {
        lemma_loop_value(board, history, slots, remaining, alpha, beta, ply, ordered, line, n - 1);
        let before = move_loop(
            board,
            history,
            false,
            slots,
            remaining,
            alpha,
            beta,
            ply,
            ordered,
            line,
            n - 1,
        );
        let tried = move_loop(
            board,
            history,
            false,
            slots,
            remaining,
            alpha,
            beta,
            ply,
            ordered,
            line,
            n,
        );
        let worth_before = best_reply(board, history, remaining, ply, ordered, n - 1);
        let worth = best_reply(board, history, remaining, ply, ordered, n);
        let reply_worth = reply_value(board, history, remaining, ply, ordered[n - 1]);
        assert(worth == (if n <= 1 {
            reply_worth
        } else if reply_worth > worth_before {
            reply_worth
        } else {
            worth_before
        }));
        if before.cut {
            assert(tried == before);
        } else {
            lemma_reply_value(
                board,
                history,
                before.slots,
                remaining,
                before.best,
                beta,
                ply,
                ordered[n - 1],
                before.pvs,
            );
            let after = try_move(
                board,
                history,
                false,
                remaining,
                alpha,
                beta,
                ply,
                ordered[n - 1],
                before,
            );
            assert(tried == after);
            let score = -move_reply(
                board,
                history,
                false,
                before.slots,
                remaining,
                before.best,
                beta,
                ply,
                ordered[n - 1],
                before.pvs,
            ).score;
            assert(after.cut == (score >= beta));
            assert(!after.cut ==> after.best == (if score > before.best {
                score
            } else {
                before.best
            }));
        }
    }
}

/// The search finds the worth of the position, with the table switched off:
/// whatever the order of the moves, the windows of the searches behind them
/// and the line handed in, the score of a node is `search_result`, the best
/// of what its moves lead to, pulled into the window.
pub proof fn lemma_node_value(
    board: chess::Board,
    history: Seq<HistoryEntry>,
    slots: Seq<(u64, TranspositionEntry)>,
    depth: int,
    alpha: int,
    beta: int,
    ply: int,
    line: Seq<Move>,
)
    requires
        alpha < beta,
        0 <= ply,
    ensures
        node_search(board, history, false, slots, depth, alpha, beta, ply, line).score
            == search_result(board, history, depth, alpha, beta, ply),
    decreases MAX_PLY - ply, 3int, 0int,
{
    let hint = if is_line(board, line) {
        line
    } else {
        Seq::empty()
    };
    let remaining = extended(board, depth);
    if ply < MAX_PLY {
        if remaining <= 0 {
            lemma_capture_value(board, alpha, beta, ply, hint);
        } else if board_legal_moves(board).len() > 0 {
            let moves = board_legal_moves(board);
            let ordered = ordered_moves(
                moves,
                board_squares(board),
                board_side_to_move(board),
                head_of(hint),
            );
            assert forall|mv: Move| moves.contains(mv) <==> ordered.contains(mv) by {
                lemma_ordered_contains(
                    moves,
                    board_squares(board),
                    board_side_to_move(board),
                    head_of(hint),
                    mv,
                );
            }
            assert(moves.contains(moves[0]));
            let k = choose|k: int| 0 <= k < ordered.len() && ordered[k] == moves[0];
            lemma_best_reply_same_moves(board, history, remaining, ply, moves, ordered);
            lemma_loop_value(
                board,
                history,
                slots,
                remaining,
                alpha,
                beta,
                ply,
                ordered,
                hint,
                ordered.len() as int,
            );
        }
    }
}

/// With the table switched off, a node that has bettered alpha holds a line
/// whose first move is worth the score it holds.
pub proof fn lemma_loop_head(
    board: chess::Board,
    history: Seq<HistoryEntry>,
    slots: Seq<(u64, TranspositionEntry)>,
    remaining: int,
    alpha: int,
    beta: int,
    ply: int,
    ordered: Seq<Move>,
    line: Seq<Move>,
    n: int,
)
    requires
        alpha < beta,
        0 <= ply < MAX_PLY,
        0 <= n <= ordered.len(),
    ensures
        ({
            let tried = move_loop(
                board,
                history,
                false,
                slots,
                remaining,
                alpha,
                beta,
                ply,
                ordered,
                line,
                n,
            );
            tried.best > alpha ==> tried.line.len() > 0 && tried.best == reply_value(
                board,
                history,
                remaining,
                ply,
                tried.line[0],
            )
        }),
    decreases n,
{
    if n > 0 {
        lemma_loop_head(board, history, slots, remaining, alpha, beta, ply, ordered, line, n - 1);
        lemma_loop_value(board, history, slots, remaining, alpha, beta, ply, ordered, line, n - 1);
        let before = move_loop(
            board,
            history,
            false,
            slots,
            remaining,
            alpha,
            beta,
            ply,
            ordered,
            line,
            n - 1,
        );
        let tried = move_loop(
            board,
            history,
            false,
            slots,
            remaining,
            alpha,
            beta,
            ply,
            ordered,
            line,
            n,
        );
        if before.cut {
            assert(tried == before);
        } else {
            let mv = ordered[n - 1];
            lemma_reply_value(
                board,
                history,
                before.slots,
                remaining,
                before.best,
                beta,
                ply,
                mv,
                before.pvs,
            );
            let after = try_move(board, history, false, remaining, alpha, beta, ply, mv, before);
            assert(tried == after);
            let reply = move_reply(
                board,
                history,
                false,
                before.slots,
                remaining,
                before.best,
                beta,
                ply,
                mv,
                before.pvs,
            );
            let score = -reply.score;
            if score >= beta {
                assert(after.best == before.best);
                assert(after.line == root_line(ply, before.line, mv));
            } else if score > before.best {
                assert(after.best == score);
                assert(after.line == seq![mv] + reply.line);
                assert(after.line[0] == mv);
            } else {
                assert(after.best == before.best);
                assert(after.line == before.line);
            }
        }
    }
}

/// With the table switched off, the first move of the line of a node whose
/// score lies inside the window is a move that is worth the score.
pub proof fn lemma_line_head_value(
    board: chess::Board,
    history: Seq<HistoryEntry>,
    slots: Seq<(u64, TranspositionEntry)>,
    depth: int,
    alpha: int,
    beta: int,
    ply: int,
    line: Seq<Move>,
)
    requires
        alpha < beta,
        expands(board, false, slots, depth, alpha, beta, ply),
        alpha < node_search(board, history, false, slots, depth, alpha, beta, ply, line).score
            < beta,
    ensures
        ({
            let found = node_search(board, history, false, slots, depth, alpha, beta, ply, line);
            &&& found.line.len() > 0
            &&& found.score == reply_value(
                board,
                history,
                extended(board, depth),
                ply,
                found.line[0],
            )
        }),
{
    let hint = if is_line(board, line) {
        line
    } else {
        Seq::empty()
    };
    let ordered = ordered_moves(
        board_legal_moves(board),
        board_squares(board),
        board_side_to_move(board),
        head_of(hint),
    );
    lemma_loop_head(
        board,
        history,
        slots,
        extended(board, depth),
        alpha,
        beta,
        ply,
        ordered,
        hint,
        ordered.len() as int,
    );
}

/// With the table switched off, every depth of a search scores the worth
/// of the position at that depth, pulled within the bounds.
pub proof fn lemma_deepening_value(
    board: chess::Board,
    history: Seq<HistoryEntry>,
    slots: Seq<(u64, TranspositionEntry)>,
    n: int,
)
    requires
        1 <= n,
    ensures
        deepening(board, history, false, slots, n).score == clamped(
            negamax_value(board, history, n, 0),
            -INFINITY as int,
            INFINITY as int,
        ),
{
    let before = deepening(board, history, false, slots, n - 1);
    lemma_node_value(
        board,
        history,
        before.slots,
        n,
        -INFINITY as int,
        INFINITY as int,
        0,
        before.line,
    );
}

/// A move into a drawn position is not searched: it scores nothing, leaves
/// the table as it is, and the line ends with it.
pub proof fn lemma_drawn_reply(
    board: chess::Board,
    history: Seq<HistoryEntry>,
    enabled: bool,
    slots: Seq<(u64, TranspositionEntry)>,
    remaining: int,
    best: int,
    beta: int,
    ply: int,
    mv: Move,
    pvs: bool,
)
    requires
        drawn(
            board_squares(board_after(board, mv)),
            history.push(entry_after(board, mv)),
            board_hash(board_after(board, mv)),
        ),
    ensures
        move_reply(board, history, enabled, slots, remaining, best, beta, ply, mv, pvs) == (Found {
            score: 0,
            slots,
            line: Seq::empty(),
        }),
{
}

/// What the score of a node below the ply ceiling can be.
///
/// At the horizon, the score is the worth of the position in the capture
/// search, pulled into the window. Deeper, the score is what the table
/// answers, if it answers; else, where the side to move has no move, the
/// score of a mate or of a stalemate; and else a score within the window.
pub open spec fn settles(
    board: chess::Board,
    enabled: bool,
    slots: Seq<(u64, TranspositionEntry)>,
    depth: int,
    alpha: int,
    beta: int,
    ply: int,
    score: int,
) -> bool {
    let remaining = extended(board, depth);
    if remaining <= 0 {
        score == capture_result(board, alpha, beta, ply)
    } else {
        match answer_of(enabled, slots, board, remaining, alpha, beta, ply) {
            Some(answer) => score == answer,
            None => if board_legal_moves(board).len() == 0 {
                score == no_move_score(board, ply)
            } else {
                alpha <= score <= beta
            },
        }
    }
}

/// A node that has tried some of its moves holds a score within the window;
/// as long as no move has bettered alpha it holds the line it was given, and
/// once one has, it holds a line.
pub proof fn lemma_loop_shape(
    board: chess::Board,
    history: Seq<HistoryEntry>,
    enabled: bool,
    slots: Seq<(u64, TranspositionEntry)>,
    remaining: int,
    alpha: int,
    beta: int,
    ply: int,
    ordered: Seq<Move>,
    line: Seq<Move>,
    n: int,
)
    requires
        alpha < beta,
        0 <= n,
    ensures
        ({
            let tried = move_loop(
                board,
                history,
                enabled,
                slots,
                remaining,
                alpha,
                beta,
                ply,
                ordered,
                line,
                n,
            );
            &&& alpha <= tried.best < beta
            &&& (tried.best == alpha && (ply > 0 || line.len() > 0 || !tried.cut) ==> tried.line
                == line)
            &&& (tried.best > alpha ==> tried.line.len() > 0)
            &&& (tried.cut && ply == 0 ==> tried.line.len() > 0)
        }),
    decreases n,
{
    if n > 0 && ply < MAX_PLY {
        lemma_loop_shape(
            board,
            history,
            enabled,
            slots,
            remaining,
            alpha,
            beta,
            ply,
            ordered,
            line,
            n - 1,
        );
        let before = move_loop(
            board,
            history,
            enabled,
            slots,
            remaining,
            alpha,
            beta,
            ply,
            ordered,
            line,
            n - 1,
        );
        let tried = move_loop(
            board,
            history,
            enabled,
            slots,
            remaining,
            alpha,
            beta,
            ply,
            ordered,
            line,
            n,
        );
        if before.cut {
            assert(tried == before);
        } else {
            let after = try_move(
                board,
                history,
                enabled,
                remaining,
                alpha,
                beta,
                ply,
                ordered[n - 1],
                before,
            );
            assert(tried == after);
            let reply = move_reply(
                board,
                history,
                enabled,
                before.slots,
                remaining,
                before.best,
                beta,
                ply,
                ordered[n - 1],
                before.pvs,
            );
            let score = -reply.score;
            assert(after.cut == (score >= beta));
            if score >= beta {
                assert(after.line == root_line(ply, before.line, ordered[n - 1]));
                assert(after.best == before.best);
            } else if score > before.best {
                assert(after.line == seq![ordered[n - 1]] + reply.line);
                assert(after.best == score);
            } else {
                assert(after.line == before.line);
                assert(after.best == before.best);
            }
        }
    }
}

/// The score of a node below the ply ceiling is one that `settles` allows,
/// whatever the table holds.
pub proof fn lemma_node_settles(
    board: chess::Board,
    history: Seq<HistoryEntry>,
    enabled: bool,
    slots: Seq<(u64, TranspositionEntry)>,
    depth: int,
    alpha: int,
    beta: int,
    ply: int,
    line: Seq<Move>,
)
    requires
        alpha < beta,
        0 <= ply < MAX_PLY,
    ensures
        settles(
            board,
            enabled,
            slots,
            depth,
            alpha,
            beta,
            ply,
            node_search(board, history, enabled, slots, depth, alpha, beta, ply, line).score,
        ),
{
    let hint = if is_line(board, line) {
        line
    } else {
        Seq::empty()
    };
    let remaining = extended(board, depth);
    if remaining <= 0 {
        lemma_capture_value(board, alpha, beta, ply, hint);
    } else {
        let ordered = ordered_moves(
            board_legal_moves(board),
            board_squares(board),
            board_side_to_move(board),
            head_of(hint),
        );
        lemma_loop_shape(
            board,
            history,
            enabled,
            slots,
            remaining,
            alpha,
            beta,
            ply,
            ordered,
            hint,
            ordered.len() as int,
        );
    }
}

/// Whether a node tries its moves: it lies below the ply ceiling, has depth
/// left and a move to try, and the table does not answer for it.
pub open spec fn expands(
    board: chess::Board,
    enabled: bool,
    slots: Seq<(u64, TranspositionEntry)>,
    depth: int,
    alpha: int,
    beta: int,
    ply: int,
) -> bool {
    &&& 0 <= ply < MAX_PLY
    &&& extended(board, depth) > 0
    &&& answer_of(enabled, slots, board, extended(board, depth), alpha, beta, ply) is None
    &&& board_legal_moves(board).len() > 0
}

/// What holds of the line of a node that has tried its moves: with a score
/// inside the window the line is not empty; with a score that does not
/// better alpha, a node below the root keeps the line it set out with, and
/// so does the root if that line names a move; and the root always names a
/// move.
pub open spec fn line_fits(
    score: int,
    line: Seq<Move>,
    hint: Seq<Move>,
    alpha: int,
    beta: int,
    ply: int,
) -> bool {
    &&& (alpha < score < beta ==> line.len() > 0)
    &&& (score <= alpha && (ply > 0 || hint.len() > 0) ==> line == hint)
    &&& (ply == 0 ==> line.len() > 0)
}

/// The line of a node that tries its moves is as `line_fits` says, where the
/// line it sets out with is the one it was given, if that can be played, and
/// no line else.
pub proof fn lemma_node_line(
    board: chess::Board,
    history: Seq<HistoryEntry>,
    enabled: bool,
    slots: Seq<(u64, TranspositionEntry)>,
    depth: int,
    alpha: int,
    beta: int,
    ply: int,
    line: Seq<Move>,
)
    requires
        alpha < beta,
        expands(board, enabled, slots, depth, alpha, beta, ply),
    ensures
        ({
            let found = node_search(board, history, enabled, slots, depth, alpha, beta, ply, line);
            let hint = if is_line(board, line) {
                line
            } else {
                Seq::empty()
            };
            line_fits(found.score, found.line, hint, alpha, beta, ply)
        }),
{
    let hint = if is_line(board, line) {
        line
    } else {
        Seq::empty()
    };
    let ordered = ordered_moves(
        board_legal_moves(board),
        board_squares(board),
        board_side_to_move(board),
        head_of(hint),
    );
    lemma_loop_shape(
        board,
        history,
        enabled,
        slots,
        extended(board, depth),
        alpha,
        beta,
        ply,
        ordered,
        hint,
        ordered.len() as int,
    );
}

/// The score bound: a score that the table did not supply lies within the
/// window's bounds. The root never asks the table.
pub proof fn lemma_score_bound(
    board: chess::Board,
    history: Seq<HistoryEntry>,
    enabled: bool,
    slots: Seq<(u64, TranspositionEntry)>,
    depth: int,
    alpha: int,
    beta: int,
    ply: int,
    line: Seq<Move>,
)
    requires
        -INFINITY <= alpha < beta <= INFINITY,
        0 <= ply < MAX_PLY,
        answer_of(enabled, slots, board, extended(board, depth), alpha, beta, ply) is None,
    ensures
        -INFINITY <= node_search(board, history, enabled, slots, depth, alpha, beta, ply, line).score
            <= INFINITY,
{
    lemma_node_settles(board, history, enabled, slots, depth, alpha, beta, ply, line);
}

/// A mated side scores the mate: where the side to move has no legal move
/// and stands in check, the score is `-INFINITY` plus the distance from the
/// root, unless the table supplied another.
pub proof fn lemma_mate_scores_mate(
    board: chess::Board,
    history: Seq<HistoryEntry>,
    enabled: bool,
    slots: Seq<(u64, TranspositionEntry)>,
    depth: int,
    alpha: int,
    beta: int,
    ply: int,
    line: Seq<Move>,
)
    requires
        alpha < beta,
        0 <= depth,
        0 <= ply < MAX_PLY,
        answer_of(enabled, slots, board, extended(board, depth), alpha, beta, ply) is None,
        board_legal_moves(board).len() == 0,
        crate::board::board_in_check(board),
    ensures
        node_search(board, history, enabled, slots, depth, alpha, beta, ply, line).score
            == -INFINITY + ply,
{
    lemma_node_settles(board, history, enabled, slots, depth, alpha, beta, ply, line);
}

/// The score of a mate stands for a mate: where the window lies above the
/// score of being mated on the spot and the table did not supply the score,
/// a node that scores so has no legal move and stands in check.
pub proof fn lemma_mate_score_means_mate(
    board: chess::Board,
    history: Seq<HistoryEntry>,
    enabled: bool,
    slots: Seq<(u64, TranspositionEntry)>,
    depth: int,
    alpha: int,
    beta: int,
    ply: int,
    line: Seq<Move>,
)
    requires
        -INFINITY <= alpha < beta <= INFINITY,
        0 <= ply < MAX_PLY,
        answer_of(enabled, slots, board, extended(board, depth), alpha, beta, ply) is None,
        node_search(board, history, enabled, slots, depth, alpha, beta, ply, line).score
            == -INFINITY + ply,
        alpha > -INFINITY + ply,
    ensures
        board_legal_moves(board).len() == 0,
        crate::board::board_in_check(board),
{
    lemma_node_settles(board, history, enabled, slots, depth, alpha, beta, ply, line);
}

/// At the root with the table switched off, the score of a mate stands for
/// a mate or for a position in which every move is worth no more than being
/// mated on the spot.
pub proof fn lemma_root_mate_score(
    board: chess::Board,
    history: Seq<HistoryEntry>,
    slots: Seq<(u64, TranspositionEntry)>,
    depth: int,
    line: Seq<Move>,
)
    requires
        1 <= depth,
        node_search(
            board,
            history,
            false,
            slots,
            depth,
            -INFINITY as int,
            INFINITY as int,
            0,
            line,
        ).score == -INFINITY,
    ensures
        negamax_value(board, history, depth, 0) <= -INFINITY,
        board_legal_moves(board).len() == 0 ==> crate::board::board_in_check(board),
{
    lemma_node_value(board, history, slots, depth, -INFINITY as int, INFINITY as int, 0, line);
}

} // verus!
