//! The search: iterative deepening over an alpha-beta search in negamax form,
//! with a quiescence search at the horizon, and the worker's part in starting
//! and stopping it.

use vstd::prelude::*;

use crate::board::{
    board_after, board_hash, board_legal_moves, board_side_to_move, board_squares, irreversible,
    is_line, lemma_line_extends, playable_line, Move, Placement, Position,
};
use crate::channel::{send_information, silent_receiver, try_receive, unheard_sender};
use crate::course::{
    answer_of, capture_loop, capture_search, deepening, head_of, expands, lemma_capture_cut_stays,
    lemma_deepening_value, lemma_line_head_value, lemma_move_cut_stays, lemma_node_line,
    lemma_node_value, line_fits,
    move_loop, move_reply, node_search, try_move, Found,
};
use crate::clock::{
    allocate_time, allocated_for, budget_is_spent, clock_of, elapsed_since, nodes_per_second, now,
    nps, time_is_up,
};
use crate::draw::{drawn, is_draw, lemma_material_agrees};
use crate::evaluation::{board_evaluation, evaluate_position, evaluate_with, SCORE_LIMIT};
use crate::ordering::{
    capture_moves, lemma_ordered_agrees, lemma_picked_agrees, move_ordering, ordered_moves,
};
use crate::table::{make_entry, probe, vacant, TranspositionTable};
use crate::uci::GameTime;
use crate::value::{
    best_capture, board_captures, capture_result, clamped, entry_after, extended,
    lemma_best_capture_grows, lemma_quiescence_stands_pat, negamax_value, quiescence_value,
    reply_value, search_result, window_ok,
};
use crate::{Information, INFINITY, MAX_PLY};

verus! {

/// What the worker is told.
#[derive(Debug)]
pub enum SearchCommand {
    Start(SearchParams),
    Stop,
    Quit,
    Nothing,
}

/// Whether a search has been told to end, and how.
#[derive(Clone, Copy, Debug, PartialEq, Eq, Structural)]
pub enum SearchTerminate {
    Stop,
    Quit,
    Nothing,
}

/// How a search is limited. Times are in nanoseconds.
#[derive(Clone, Copy, Debug, PartialEq, Eq, Structural)]
pub struct SearchParams {
    /// The kind of limit.
    pub search_mode: SearchMode,
    /// The time for this move, where the limit is a fixed time.
    pub move_time: u64,
    /// The clocks, where the limit is the game's clock.
    pub game_time: GameTime,
}

/// The kind of limit on a search.
#[derive(Clone, Copy, Debug, PartialEq, Eq, Structural)]
pub enum SearchMode {
    Infinite,
    MoveTime,
    GameTime,
}

/// One ply of the line played so far.
#[derive(Clone, Copy, Debug, PartialEq, Eq, Structural)]
pub struct HistoryEntry {
    /// The hash of the position that the ply led to.
    pub hash: u64,
    /// False for a pawn move or a capture, true for any other move.
    pub is_reversible_move: bool,
}

/// What the search found at one depth.
#[derive(Clone, Debug, PartialEq)]
pub struct SearchSummary {
    /// The depth searched.
    pub depth: u8,
    /// The deepest ply reached.
    pub seldepth: u8,
    /// The time since the search began, in nanoseconds.
    pub time: u64,
    /// The score in centipawns, for the side to move.
    pub cp: i32,
    /// The nodes visited since the search began.
    pub nodes: u64,
    /// The nodes visited in a second.
    pub nps: u64,
    /// The principal variation.
    pub pv: Vec<Move>,
}

/// What the search reports while it runs and when it ends.
#[derive(Debug)]
pub enum SearchInformation {
    BestMove(Move),
    Summary(SearchSummary),
    ExtraInfo(String),
}

/// How often the search looks up from its work: once in this many nodes, less one.
pub const POLL_MASK: u64 = 0x7ff;

/// The state of one search.
#[derive(Debug)]
pub struct SearchState {
    /// The deepest ply reached.
    pub seldepth: u8,
    /// When the search began.
    pub start_time: Option<std::time::Instant>,
    /// The nodes visited; the count stops at the largest number.
    pub nodes: u64,
    /// The depth that iterative deepening is at.
    pub depth: u8,
    /// The distance from the root, in plies.
    pub ply: u8,
    /// Whether the search has been told to end.
    pub terminate: SearchTerminate,
    /// What this move may use of the clock, in nanoseconds.
    pub allocated_time: u64,
}

impl SearchState {
    /// The state before anything was searched.
    pub fn new() -> (r: SearchState)
        ensures
            r.seldepth == 0,
            r.start_time is None,
            r.nodes == 0,
            r.depth == 0,
            r.ply == 0,
            r.terminate == SearchTerminate::Nothing,
            r.allocated_time == 0,
    {
        SearchState {
            seldepth: 0,
            start_time: None,
            nodes: 0,
            depth: 0,
            ply: 0,
            terminate: SearchTerminate::Nothing,
            allocated_time: 0,
        }
    }
}

/// What a search works on: the position, the line that led to it, the limits,
/// its own state, and the two channels.
pub struct SearchRefs<'a> {
    pub board: Position,
    pub search_params: &'a SearchParams,
    pub search_state: SearchState,
    pub control_rx: &'a crossbeam_channel::Receiver<SearchCommand>,
    pub report_tx: &'a crossbeam_channel::Sender<Information>,
    pub history: Vec<HistoryEntry>,
}

impl<'a> SearchRefs<'a> {
    /// The search is within its depth, and the history holds one entry for
    /// every ply from the root, after those of the game played before.
    pub open spec fn wf(&self) -> bool {
        self.search_state.ply <= MAX_PLY && self.game_plies() >= 0
    }

    /// How many plies of the game were played before the search began: the
    /// history holds them, and after them one entry for each ply of the search.
    pub open spec fn game_plies(&self) -> int {
        self.history@.len() - self.search_state.ply
    }
}

/// What a step of the search leaves as it was and what it may only move one
/// way: the position, history, limits, channels, depth and distance from the
/// root stay; nodes and selective depth never fall; a search told to end
/// stays told, and one told to quit stays told to quit.
pub open spec fn keeps(before: SearchRefs, after: SearchRefs) -> bool {
    &&& after.board == before.board
    &&& after.search_params == before.search_params
    &&& after.control_rx == before.control_rx
    &&& after.report_tx == before.report_tx
    &&& after.history@ == before.history@
    &&& after.search_state.ply == before.search_state.ply
    &&& after.search_state.depth == before.search_state.depth
    &&& after.search_state.start_time == before.search_state.start_time
    &&& after.search_state.allocated_time == before.search_state.allocated_time
    &&& after.search_state.nodes >= before.search_state.nodes
    &&& after.search_state.seldepth >= before.search_state.seldepth
    &&& (before.search_state.terminate != SearchTerminate::Nothing
        ==> after.search_state.terminate != SearchTerminate::Nothing)
    &&& (before.search_state.terminate == SearchTerminate::Quit ==> after.search_state.terminate
        == SearchTerminate::Quit)
}

/// The flag after a look at the command channel and the clock: a command to
/// quit wins over everything, a command to stop or a spent clock stops a
/// search that runs, and nothing sets a search going again.
pub open spec fn next_terminate(
    current: SearchTerminate,
    command: Option<SearchCommand>,
    timed_out: bool,
) -> SearchTerminate {
    if current == SearchTerminate::Quit || command == Some(SearchCommand::Quit) {
        SearchTerminate::Quit
    } else if current == SearchTerminate::Stop || command == Some(SearchCommand::Stop)
        || timed_out {
        SearchTerminate::Stop
    } else {
        SearchTerminate::Nothing
    }
}

/// The flag after a look at the command channel and the clock.
pub fn terminate_after(
    current: SearchTerminate,
    command: &Option<SearchCommand>,
    timed_out: bool,
) -> (r: SearchTerminate)
    ensures
        r == next_terminate(current, *command, timed_out),
{
    let quit = match command {
        Some(SearchCommand::Quit) => true,
        _ => false,
    };
    let stop = match command {
        Some(SearchCommand::Stop) => true,
        _ => false,
    };
    if current == SearchTerminate::Quit || quit {
        SearchTerminate::Quit
    } else if current == SearchTerminate::Stop || stop || timed_out {
        SearchTerminate::Stop
    } else {
        SearchTerminate::Nothing
    }
}

/// Looks up from the search: takes one waiting command, if there is one, and
/// reads the clock, and sets the flag by them.
pub fn check_terminate(refs: &mut SearchRefs)
    ensures
        keeps(*old(refs), *final(refs)),
        final(refs).search_state.nodes == old(refs).search_state.nodes,
        final(refs).search_state.seldepth == old(refs).search_state.seldepth,
        exists|command: Option<SearchCommand>, timed_out: bool|
            final(refs).search_state.terminate == next_terminate(
                old(refs).search_state.terminate,
                command,
                timed_out,
            ),
{
    let command = try_receive(refs.control_rx);
    let timed_out = match &refs.search_state.start_time {
        Some(start) => time_is_up(
            refs.search_params.search_mode,
            elapsed_since(start),
            refs.search_params.move_time,
            refs.search_state.allocated_time,
        ),
        None => false,
    };
    refs.search_state.terminate = terminate_after(
        refs.search_state.terminate,
        &command,
        timed_out,
    );
}

/// The search beyond the horizon: the static evaluation stands as a score
/// that the side to move can have by doing nothing, and only captures are
/// tried to better it. It never looks at the transposition table.
///
/// The score and the line are those of `capture_search`, and the score is
/// the worth of the position in the capture search, pulled into the window.
/// The line is left as it came unless a capture betters the score, and then
/// a capture heads it. Where no capture is tried, the selective depth stays.
pub fn quiescence(alpha: i32, beta: i32, pv: &mut Vec<Move>, refs: &mut SearchRefs) -> (score: i32)
    requires
        old(refs).wf(),
        window_ok(alpha, beta),
        is_line(old(refs).board@, old(pv)@),
    ensures
        keeps(*old(refs), *final(refs)),
        is_line(final(refs).board@, final(pv)@),
        -SCORE_LIMIT <= score <= SCORE_LIMIT,
        final(refs).search_state.terminate != SearchTerminate::Nothing ==> score == 0,
        old(refs).search_state.depth == 1 && old(refs).search_state.terminate
            == SearchTerminate::Nothing ==> final(refs).search_state.terminate
            == SearchTerminate::Nothing,
        old(refs).search_state.terminate != SearchTerminate::Nothing ==> final(pv)@ == old(pv)@
            && final(refs).search_state.seldepth == old(refs).search_state.seldepth,
        final(refs).search_state.terminate == SearchTerminate::Nothing ==> {
            let board = old(refs).board@;
            let ply = old(refs).search_state.ply as int;
            let found = capture_search(board, alpha as int, beta as int, ply, old(pv)@);
            &&& score == found.0
            &&& final(pv)@ == found.1
            &&& score == capture_result(board, alpha as int, beta as int, ply)
            &&& (score <= alpha ==> final(pv)@ == old(pv)@)
            &&& (final(pv)@ != old(pv)@ ==> final(pv)@.len() > 0 && board_captures(board).contains(
                final(pv)@[0],
            ))
            &&& (ply >= MAX_PLY || board_evaluation(board) >= beta || board_captures(board).len()
                == 0 ==> final(pv)@ == old(pv)@ && final(refs).search_state.seldepth == old(
                refs,
            ).search_state.seldepth)
        },
    decreases MAX_PLY - old(refs).search_state.ply,
{
    refs.search_state.nodes = refs.search_state.nodes.saturating_add(1);
    if refs.search_state.nodes & POLL_MASK == 0 && refs.search_state.depth != 1 {
        check_terminate(refs);
    }
    if refs.search_state.terminate != SearchTerminate::Nothing {
        return 0;
    }
    if refs.search_state.ply >= MAX_PLY {
        return evaluate_position(&refs.board);
    }
    let moves = refs.board.legal_moves();
    let eval_score = evaluate_with(&refs.board, moves.len());
    let ghost board = refs.board@;
    if eval_score >= beta {
        proof {
            lemma_quiescence_stands_pat(board, refs.search_state.ply as int);
        }
        return beta;
    }
    let mut best = alpha;
    if eval_score > best {
        best = eval_score;
    }
    let ghost start = best as int;
    let ply = refs.search_state.ply;
    let placement = refs.board.placement();
    let mover = refs.board.side_to_move();
    let taking = capture_moves(&moves, &placement, mover);
    proof {
        lemma_picked_agrees(
            moves@,
            placement@,
            board_squares(refs.board@),
            mover,
            None,
            true,
            moves@.len() as int,
        );
    }
    let mut i: usize = 0;
    while i < taking.len()
        invariant
            i <= taking.len(),
            keeps(*old(refs), *refs),
            refs.wf(),
            refs.search_state.terminate == SearchTerminate::Nothing,
            old(refs).search_state.terminate == SearchTerminate::Nothing,
            ply == refs.search_state.ply,
            ply < MAX_PLY,
            board == refs.board@,
            window_ok(alpha, beta),
            window_ok(best, beta),
            alpha <= start <= best,
            start == (if board_evaluation(board) > alpha {
                board_evaluation(board)
            } else {
                alpha as int
            }),
            board_evaluation(board) < beta,
            best == clamped(best_capture(board, ply as int, i as int), alpha as int, beta as int),
            best_capture(board, ply as int, i as int) < beta,
            is_line(refs.board@, pv@),
            taking@ == board_captures(board),
            forall|j: int|
                0 <= j < taking@.len() ==> board_legal_moves(refs.board@).contains(
                    #[trigger] taking@[j],
                ),
            ({
                let taken = capture_loop(board, start, beta as int, ply as int, old(pv)@, i as int);
                &&& best == taken.best
                &&& pv@ == taken.line
                &&& !taken.cut
            }),
            best == start ==> pv@ == old(pv)@,
            pv@ != old(pv)@ ==> pv@.len() > 0 && board_captures(board).contains(pv@[0]),
            i == 0 ==> refs.search_state.seldepth == old(refs).search_state.seldepth,
        decreases taking.len() - i,
    {
        let legal = taking[i];
        let old_pos = refs.board;
        let new_pos = refs.board.make_move(legal);
        refs.board = new_pos;
        let child_hash = refs.board.hash();
        refs.history.push(HistoryEntry { hash: child_hash, is_reversible_move: false });
        refs.search_state.ply = ply + 1;
        if refs.search_state.ply > refs.search_state.seldepth {
            refs.search_state.seldepth = refs.search_state.ply;
        }
        let mut node_pv: Vec<Move> = Vec::new();
        let score = -quiescence(-beta, -best, &mut node_pv, refs);
        let ghost reply = -quiescence_value(board_after(board, legal), ply + 1);
        refs.search_state.ply = ply;
        refs.board = old_pos;
        refs.history.pop();
        assert(refs.history@ == old(refs).history@);
        if refs.search_state.terminate != SearchTerminate::Nothing {
            return 0;
        }
        // The score stands to the window as the reply itself does.
        assert(score >= beta <==> reply >= beta);
        assert(score > best <==> reply > best);
        assert(best < score < beta ==> score == reply);
        assert(taking@.contains(legal));
        if score >= beta {
            proof {
                lemma_best_capture_grows(board, ply as int, i + 1, taking@.len() as int);
                lemma_capture_cut_stays(
                    board,
                    start,
                    beta as int,
                    ply as int,
                    old(pv)@,
                    i + 1,
                    taking@.len() as int,
                );
            }
            return beta;
        }
        if score > best {
            best = score;
            proof {
                lemma_line_extends(refs.board@, legal, node_pv@);
            }
            pv.clear();
            pv.push(legal);
            pv.append(&mut node_pv);
        }
        i = i + 1;
    }
    best
}

/// What a search of a node leaves of the table: it stays switched on or off
/// as it was, with as many buckets.
pub open spec fn table_kept(before: TranspositionTable, after: TranspositionTable) -> bool {
    after.enabled() == before.enabled() && after.slots().len() == before.slots().len()
}

/// Tries one move of a node: plays it, searches the position reached
/// unless it is a draw, and takes the move back. The score is that of the
/// side that moves; `node_pv` takes the line of the position reached.
fn search_move(
    refs: &mut SearchRefs,
    table: &mut TranspositionTable,
    node_pv: &mut Vec<Move>,
    placement: &Placement,
    legal: Move,
    remaining: u8,
    best: i32,
    beta: i32,
    do_pvs: bool,
) -> (score: i32)
    requires
        old(refs).wf(),
        old(refs).search_state.ply < MAX_PLY,
        old(refs).search_state.terminate == SearchTerminate::Nothing,
        window_ok(best, beta),
        1 <= remaining <= MAX_PLY + 1,
        board_legal_moves(old(refs).board@).contains(legal),
        legal.from < 64,
        legal.to < 64,
        placement.wf(),
        forall|sq: int| 0 <= sq < 64 ==> placement@[sq] == board_squares(old(refs).board@)[sq],
        old(node_pv)@.len() == 0,
    ensures
        keeps(*old(refs), *final(refs)),
        table_kept(*old(table), *final(table)),
        -SCORE_LIMIT <= score <= SCORE_LIMIT,
        old(refs).search_state.depth == 1 ==> final(refs).search_state.terminate
            == SearchTerminate::Nothing,
        final(refs).search_state.terminate == SearchTerminate::Nothing ==> {
            let reply = move_reply(
                old(refs).board@,
                old(refs).history@,
                old(table).enabled(),
                old(table).slots(),
                remaining as int,
                best as int,
                beta as int,
                old(refs).search_state.ply as int,
                legal,
                do_pvs,
            );
            &&& score == -reply.score
            &&& final(table).slots() == reply.slots
            &&& final(node_pv)@ == reply.line
            &&& is_line(board_after(old(refs).board@, legal), final(node_pv)@)
        },
    decreases MAX_PLY - old(refs).search_state.ply, 0int,
{
    let ply = refs.search_state.ply;
    let old_pos = refs.board;
    let new_pos = refs.board.make_move(legal);
    let reversible = !irreversible(placement, legal);
    refs.board = new_pos;
    let child_hash = refs.board.hash();
    refs.history.push(HistoryEntry { hash: child_hash, is_reversible_move: reversible });
    refs.search_state.ply = ply + 1;
    if refs.search_state.ply > refs.search_state.seldepth {
        refs.search_state.seldepth = refs.search_state.ply;
    }
    let mut eval_score: i32 = 0;
    let reached = refs.board.placement();
    let ghost board = old(refs).board@;
    let ghost there = board_after(board, legal);
    let ghost played = old(refs).history@.push(entry_after(board, legal));
    let ghost enabled = table.enabled();
    let ghost slots = table.slots();
    let ghost reply = move_reply(
        board,
        old(refs).history@,
        enabled,
        slots,
        remaining as int,
        best as int,
        beta as int,
        ply as int,
        legal,
        do_pvs,
    );
    proof {
        lemma_material_agrees(reached@, board_squares(refs.board@));
        assert(refs.history@ == played);
        assert(refs.board@ == there);
        assert(node_pv@ =~= Seq::<Move>::empty());
    }
    let is_drawn = is_draw(&reached, &refs.history, child_hash);
    assert(is_drawn == drawn(board_squares(there), played, board_hash(there)));
    if !is_drawn {
        if do_pvs {
            let ghost first = node_search(
                there,
                played,
                enabled,
                slots,
                remaining - 1,
                -best - 1,
                -best as int,
                ply + 1,
                Seq::empty(),
            );
            eval_score = -negamax(refs, table, node_pv, remaining - 1, -best - 1, -best);
            if eval_score > best && eval_score < beta {
                assert(refs.search_state.terminate == SearchTerminate::Nothing ==> reply
                    == node_search(
                    there,
                    played,
                    enabled,
                    first.slots,
                    remaining - 1,
                    -beta as int,
                    -best as int,
                    ply + 1,
                    first.line,
                ));
                eval_score = -negamax(refs, table, node_pv, remaining - 1, -beta, -best);
            } else {
                assert(refs.search_state.terminate == SearchTerminate::Nothing ==> reply == first);
            }
        } else {
            assert(reply == node_search(
                there,
                played,
                enabled,
                slots,
                remaining - 1,
                -beta as int,
                -best as int,
                ply + 1,
                Seq::empty(),
            ));
            eval_score = -negamax(refs, table, node_pv, remaining - 1, -beta, -best);
        }
    } else {
        assert(reply == Found { score: 0, slots, line: Seq::empty() });
    }
    refs.search_state.ply = ply;
    refs.board = old_pos;
    refs.history.pop();
    assert(refs.history@ == old(refs).history@);
    eval_score
}

/// The alpha-beta search of one node to `depth`, with the window `alpha`,
/// `beta`, in negamax form: the score is that of the side to move.
///
/// The node looks up from its work once in 2048 nodes, and returns 0 with
/// nothing changed once the search is told to end. A line that cannot be
/// played from the node is dropped. The node stops at the ply ceiling with
/// the static evaluation, searches one ply deeper where the side to move is
/// in check, and hands over to [`quiescence`] where no depth is left. Below
/// the root it first asks the transposition table. It then tries its moves in
/// the order of [`move_ordering`], each as [`search_move`] does. It leaves
/// with `beta` as soon as a move reaches `beta`, and with the best score
/// reached, but not less than `alpha`, when all moves are tried; each time it
/// leaves an entry in the table. `pv` takes the line that raised alpha last;
/// the root, which must name a move, puts the move it liked best into an
/// empty line.
///
/// What comes of all this is stated once and for all by `node_search`:
/// score, table and line are what that function gives.
#[verifier::rlimit(60)]
pub fn negamax(
    refs: &mut SearchRefs,
    table: &mut TranspositionTable,
    pv: &mut Vec<Move>,
    depth: u8,
    alpha: i32,
    beta: i32,
) -> (score: i32)
    requires
        old(refs).wf(),
        window_ok(alpha, beta),
        depth <= MAX_PLY,
    ensures
        keeps(*old(refs), *final(refs)),
        table_kept(*old(table), *final(table)),
        -SCORE_LIMIT <= score <= SCORE_LIMIT,
        final(refs).search_state.terminate != SearchTerminate::Nothing ==> score == 0,
        old(refs).search_state.depth == 1 && old(refs).search_state.terminate
            == SearchTerminate::Nothing ==> final(refs).search_state.terminate
            == SearchTerminate::Nothing,
        old(refs).search_state.terminate != SearchTerminate::Nothing ==> {
            &&& final(pv)@ == old(pv)@
            &&& final(table).slots() == old(table).slots()
            &&& final(refs).search_state.nodes == old(refs).search_state.nodes
            &&& final(refs).search_state.seldepth == old(refs).search_state.seldepth
        },
        final(refs).search_state.terminate == SearchTerminate::Nothing ==> {
            let found = node_search(
                old(refs).board@,
                old(refs).history@,
                old(table).enabled(),
                old(table).slots(),
                depth as int,
                alpha as int,
                beta as int,
                old(refs).search_state.ply as int,
                old(pv)@,
            );
            &&& score == found.score
            &&& final(table).slots() == found.slots
            &&& final(pv)@ == found.line
            &&& is_line(old(refs).board@, final(pv)@)
        },
        final(refs).search_state.terminate == SearchTerminate::Nothing && old(
            refs,
        ).search_state.ply == 0 ==> {
            &&& -INFINITY <= score <= INFINITY
            &&& (depth >= 1 && board_legal_moves(old(refs).board@).len() > 0 ==> final(pv)@.len()
                > 0)
        },
        final(refs).search_state.terminate == SearchTerminate::Nothing && expands(
            old(refs).board@,
            old(table).enabled(),
            old(table).slots(),
            depth as int,
            alpha as int,
            beta as int,
            old(refs).search_state.ply as int,
        ) ==> line_fits(
            score as int,
            final(pv)@,
            if is_line(old(refs).board@, old(pv)@) {
                old(pv)@
            } else {
                Seq::empty()
            },
            alpha as int,
            beta as int,
            old(refs).search_state.ply as int,
        ),
        final(refs).search_state.terminate == SearchTerminate::Nothing && !old(table).enabled()
            ==> score == search_result(
            old(refs).board@,
            old(refs).history@,
            depth as int,
            alpha as int,
            beta as int,
            old(refs).search_state.ply as int,
        ),
    decreases MAX_PLY - old(refs).search_state.ply, 1int,
{
    if refs.search_state.nodes & POLL_MASK == 0 && refs.search_state.depth != 1 {
        check_terminate(refs);
    }
    if refs.search_state.terminate != SearchTerminate::Nothing {
        return 0;
    }
    if !playable_line(&refs.board, pv) {
        pv.clear();
    }
    let ghost hint = pv@;
    proof {
        let ply = refs.search_state.ply as int;
        if expands(
            refs.board@,
            table.enabled(),
            table.slots(),
            depth as int,
            alpha as int,
            beta as int,
            ply,
        ) {
            lemma_node_line(
                refs.board@,
                refs.history@,
                table.enabled(),
                table.slots(),
                depth as int,
                alpha as int,
                beta as int,
                ply,
                old(pv)@,
            );
        }
        if !table.enabled() {
            lemma_node_value(
                refs.board@,
                refs.history@,
                table.slots(),
                depth as int,
                alpha as int,
                beta as int,
                ply,
                old(pv)@,
            );
        }
    }
    if refs.search_state.ply >= MAX_PLY {
        return evaluate_position(&refs.board);
    }
    let is_check = refs.board.in_check();
    let remaining: u8 = if is_check {
        depth + 1
    } else {
        depth
    };
    if remaining == 0 {
        return quiescence(alpha, beta, pv, refs);
    }
    refs.search_state.nodes = refs.search_state.nodes.saturating_add(1);
    let ply = refs.search_state.ply;
    let hash = refs.board.hash();
    if ply > 0 {
        match probe(table.get(hash), remaining, alpha, beta, ply) {
            Some(found) => {
                return found;
            },
            None => {},
        }
    }
    let moves = refs.board.legal_moves();
    let placement = refs.board.placement();
    let mover = refs.board.side_to_move();
    let first = if pv.len() > 0 {
        Some(pv[0])
    } else {
        None
    };
    let ordered = move_ordering(&moves, &placement, mover, first);
    proof {
        lemma_ordered_agrees(moves@, placement@, board_squares(refs.board@), mover, first);
        if moves@.len() > 0 {
            assert(moves@.contains(moves@[0]));
        }
        if ordered@.len() > 0 {
            assert(ordered@.contains(ordered@[0]));
        }
        assert forall|j: int| 0 <= j < ordered@.len() implies board_legal_moves(
            refs.board@,
        ).contains(#[trigger] ordered@[j]) && ordered@[j].from < 64 && ordered@[j].to < 64 by {
            assert(ordered@.contains(ordered@[j]));
            let k = choose|k: int| 0 <= k < moves@.len() && moves@[k] == ordered@[j];
            assert(moves@[k].from < 64);
        }
    }
    if ordered.len() == 0 {
        if is_check {
            return -INFINITY + ply as i32;
        }
        return 0;
    }
    let ghost board = refs.board@;
    let ghost history = refs.history@;
    let ghost enabled = table.enabled();
    let ghost slots = table.slots();
    let mut best = alpha;
    let mut do_pvs = false;
    let mut best_eval_score: i32 = -INFINITY - 1;
    let mut best_move = ordered[0];
    let mut i: usize = 0;
    while i < ordered.len()
        invariant
            i <= ordered.len(),
            keeps(*old(refs), *refs),
            table_kept(*old(table), *table),
            refs.wf(),
            refs.search_state.terminate == SearchTerminate::Nothing,
            old(refs).search_state.terminate == SearchTerminate::Nothing,
            ply == refs.search_state.ply,
            ply < MAX_PLY,
            1 <= remaining <= MAX_PLY + 1,
            window_ok(alpha, beta),
            alpha <= best < beta,
            placement.wf(),
            is_line(board, pv@),
            forall|j: int|
                0 <= j < ordered@.len() ==> board_legal_moves(board).contains(
                    #[trigger] ordered@[j],
                ) && ordered@[j].from < 64 && ordered@[j].to < 64,
            board == refs.board@,
            history == refs.history@,
            hash == board_hash(board),
            enabled == table.enabled(),
            enabled == old(table).enabled(),
            slots == old(table).slots(),
            remaining == extended(board, depth as int),
            hint == (if is_line(board, old(pv)@) {
                old(pv)@
            } else {
                Seq::empty()
            }),
            board_legal_moves(board).len() > 0,
            answer_of(enabled, slots, board, remaining as int, alpha as int, beta as int, ply as int)
                is None,
            ordered@ == ordered_moves(
                board_legal_moves(board),
                board_squares(board),
                board_side_to_move(board),
                head_of(hint),
            ),
            board_legal_moves(board).contains(best_move),
            forall|sq: int| 0 <= sq < 64 ==> placement@[sq] == board_squares(board)[sq],
            ({
                let tried = move_loop(
                    board,
                    history,
                    enabled,
                    slots,
                    remaining as int,
                    alpha as int,
                    beta as int,
                    ply as int,
                    ordered@,
                    hint,
                    i as int,
                );
                &&& best == tried.best
                &&& do_pvs == tried.pvs
                &&& best_eval_score == tried.top
                &&& best_move == tried.top_move
                &&& table.slots() == tried.slots
                &&& pv@ == tried.line
                &&& !tried.cut
            }),
        decreases ordered.len() - i,
    {
        let legal = ordered[i];
        let ghost before = move_loop(
            board,
            history,
            enabled,
            slots,
            remaining as int,
            alpha as int,
            beta as int,
            ply as int,
            ordered@,
            hint,
            i as int,
        );
        let ghost after = try_move(
            board,
            history,
            enabled,
            remaining as int,
            alpha as int,
            beta as int,
            ply as int,
            legal,
            before,
        );
        assert(move_loop(
            board,
            history,
            enabled,
            slots,
            remaining as int,
            alpha as int,
            beta as int,
            ply as int,
            ordered@,
            hint,
            i + 1,
        ) == after);
        let mut node_pv: Vec<Move> = Vec::new();
        let eval_score = search_move(
            refs,
            table,
            &mut node_pv,
            &placement,
            legal,
            remaining,
            best,
            beta,
            do_pvs,
        );
        if refs.search_state.terminate != SearchTerminate::Nothing {
            return 0;
        }
        if eval_score > best_eval_score {
            best_eval_score = eval_score;
            best_move = legal;
        }
        if eval_score >= beta {
            table.put(hash, make_entry(remaining, beta, alpha, beta, ply, legal));
            if ply == 0 && pv.len() == 0 {
                pv.push(legal);
                proof {
                    lemma_line_extends(board, legal, Seq::empty());
                    assert(seq![legal] + Seq::<Move>::empty() == seq![legal]);
                    assert(pv@ == seq![legal]);
                }
            }
            proof {
                lemma_move_cut_stays(
                    board,
                    history,
                    enabled,
                    slots,
                    remaining as int,
                    alpha as int,
                    beta as int,
                    ply as int,
                    ordered@,
                    hint,
                    i + 1,
                    ordered@.len() as int,
                );
                if !enabled {
                    lemma_node_value(
                        board,
                        history,
                        slots,
                        depth as int,
                        alpha as int,
                        beta as int,
                        ply as int,
                        old(pv)@,
                    );
                }
                lemma_node_line(
                    board,
                    history,
                    enabled,
                    slots,
                    depth as int,
                    alpha as int,
                    beta as int,
                    ply as int,
                    old(pv)@,
                );
            }
            return beta;
        }
        if eval_score > best {
            best = eval_score;
            do_pvs = true;
            proof {
                lemma_line_extends(board, legal, node_pv@);
            }
            pv.clear();
            pv.push(legal);
            pv.append(&mut node_pv);
        }
        i = i + 1;
    }
    table.put(hash, make_entry(remaining, best, alpha, beta, ply, best_move));
    if ply == 0 && pv.len() == 0 {
        pv.push(best_move);
        proof {
            lemma_line_extends(board, best_move, Seq::empty());
            assert(seq![best_move] + Seq::<Move>::empty() == seq![best_move]);
            assert(pv@ == seq![best_move]);
        }
    }
    best
}

/// Searches a position to a fixed depth, with nothing played before it,
/// without a table and without a look at clock or commands, and gives the
/// best move and the score: those of `node_search`. The move is missing only
/// where the side to move has none.
pub fn search_root(position: &Position, depth: u8) -> (r: (Option<Move>, i32))
    requires
        1 <= depth <= MAX_PLY,
    ensures
        ({
            let found = node_search(
                position@,
                Seq::empty(),
                false,
                Seq::new(1, |i: int| (0u64, vacant())),
                depth as int,
                -INFINITY as int,
                INFINITY as int,
                0,
                Seq::empty(),
            );
            &&& r.1 == found.score
            &&& r.0 == head_of(found.line)
        }),
        r.1 == clamped(
            negamax_value(position@, Seq::empty(), depth as int, 0),
            -INFINITY as int,
            INFINITY as int,
        ),
        r.0 matches Some(mv) ==> board_legal_moves(position@).contains(mv),
        r.0 is None <==> board_legal_moves(position@).len() == 0,
        -INFINITY < r.1 < INFINITY && r.0 is Some ==> r.1 == reply_value(
            position@,
            Seq::empty(),
            extended(position@, depth as int),
            0,
            r.0->0,
        ),
{
    let params = SearchParams {
        search_mode: SearchMode::Infinite,
        move_time: 0,
        game_time: GameTime { wtime: None, btime: None, winc: None, binc: None, mtg: None },
    };
    let control_rx = silent_receiver();
    let report_tx = unheard_sender();
    let mut state = SearchState::new();
    // As the first depth of a search, this one is not looked up from.
    state.depth = 1;
    let mut refs = SearchRefs {
        board: *position,
        search_params: &params,
        search_state: state,
        control_rx: &control_rx,
        report_tx: &report_tx,
        history: Vec::new(),
    };
    let mut table = TranspositionTable::disabled();
    let mut pv: Vec<Move> = Vec::new();
    let score = negamax(&mut refs, &mut table, &mut pv, depth, -INFINITY, INFINITY);
    proof {
        let slots = Seq::new(1, |i: int| (0u64, vacant()));
        lemma_node_value(
            position@,
            Seq::empty(),
            slots,
            depth as int,
            -INFINITY as int,
            INFINITY as int,
            0,
            Seq::empty(),
        );
        if -INFINITY < score < INFINITY && board_legal_moves(position@).len() > 0 {
            lemma_line_head_value(
                position@,
                Seq::empty(),
                slots,
                depth as int,
                -INFINITY as int,
                INFINITY as int,
                0,
                Seq::empty(),
            );
        }
    }
    let best = if pv.len() > 0 {
        Some(pv[0])
    } else {
        None
    };
    (best, score)
}

/// Why a search could not begin.
#[derive(Clone, Copy, Debug, PartialEq, Eq, Structural)]
pub enum SearchError {
    /// The search is to play on the clock, and the clock of the side to move
    /// is not known.
    MissingClock,
}

/// How a search ended.
#[derive(Debug)]
pub struct SearchOutcome {
    /// The first move of the principal variation of the last depth that was
    /// searched to the end; `None` where that variation is empty.
    pub best_move: Option<Move>,
    /// Whether the search was told to end, and how.
    pub terminate: SearchTerminate,
    /// One summary for each depth that was searched to the end, in order.
    pub summaries: Vec<SearchSummary>,
    /// Whether the report channel had lost its other end.
    pub disconnected: bool,
}

/// What holds of the summaries of one search, taken together: the depths
/// count up from one, nodes and selective depth never fall from one depth to
/// the next, every score is within bounds, and every principal variation can
/// be played from the root.
pub open spec fn summaries_ok(board: chess::Board, summaries: Seq<SearchSummary>) -> bool {
    &&& forall|i: int|
        0 <= i < summaries.len() ==> {
            &&& (#[trigger] summaries[i]).depth == i + 1
            &&& -INFINITY <= summaries[i].cp <= INFINITY
            &&& summaries[i].nps == nodes_per_second(summaries[i].nodes, summaries[i].time)
            &&& is_line(board, summaries[i].pv@)
        }
    &&& forall|i: int, j: int|
        0 <= i <= j < summaries.len() ==> (#[trigger] summaries[i]).nodes <= (
        #[trigger] summaries[j]).nodes && summaries[i].seldepth <= summaries[j].seldepth
}

/// What a search leaves behind when it is over.
///
/// The position, the history and the distance from the root are as they
/// were; the table is switched on or off as it was. The search fails only
/// where it is to play on the clock and the clock of the side to move is not
/// known, and then nothing of its state has changed. Otherwise at least the
/// first depth was searched; the summaries hold together as `summaries_ok`
/// says; the best move is the first of the last summary's line, and is legal;
/// a search that was neither told to end nor lost its channel nor played on
/// the clock went to the ply ceiling; score and line of every summary are
/// those that `deepening` gives for its depth, and a search that was not told
/// to end leaves the table that `deepening` gives; with the table switched
/// off every score is the worth of the position at its depth, pulled within
/// bounds; a search that was told to
/// end stood at the depth after its last summary; a position with a legal
/// move gets a best move; and on the clock the time set aside is what
/// `allocated_for` says.
pub open spec fn search_done(
    before: SearchRefs,
    after: SearchRefs,
    table_before: TranspositionTable,
    table_after: TranspositionTable,
    result: Result<SearchOutcome, SearchError>,
) -> bool {
    &&& after.board == before.board
    &&& after.history@ == before.history@
    &&& after.search_state.ply == 0
    &&& after.search_state.nodes >= before.search_state.nodes
    &&& table_kept(table_before, table_after)
    &&& (result is Err <==> before.search_params.search_mode == SearchMode::GameTime && clock_of(
        before.search_params.game_time,
        board_side_to_move(before.board@),
    ) is None)
    &&& (result is Err ==> after.search_state == before.search_state)
    &&& (result matches Ok(outcome) ==> {
        &&& 1 <= outcome.summaries@.len() <= MAX_PLY
        &&& summaries_ok(before.board@, outcome.summaries@)
        &&& outcome.best_move == head_of(outcome.summaries@.last().pv@)
        &&& (outcome.best_move matches Some(mv) ==> board_legal_moves(before.board@).contains(mv))
        &&& outcome.terminate == after.search_state.terminate
        &&& outcome.summaries@.last().nodes <= after.search_state.nodes
        &&& (outcome.terminate == SearchTerminate::Nothing && !outcome.disconnected
            && before.search_params.search_mode != SearchMode::GameTime
            ==> outcome.summaries@.len() == MAX_PLY)
        &&& (forall|i: int|
            0 <= i < outcome.summaries@.len() ==> {
                let found = deepening(
                    before.board@,
                    before.history@,
                    table_before.enabled(),
                    table_before.slots(),
                    i + 1,
                );
                &&& (#[trigger] outcome.summaries@[i]).cp == found.score
                &&& outcome.summaries@[i].pv@ == found.line
            })
        &&& (!table_before.enabled() ==> forall|i: int|
            0 <= i < outcome.summaries@.len() ==> (#[trigger] outcome.summaries@[i]).cp
                == clamped(
                negamax_value(before.board@, before.history@, i + 1, 0),
                -INFINITY as int,
                INFINITY as int,
            ))
        &&& (outcome.terminate == SearchTerminate::Nothing ==> table_after.slots() == deepening(
            before.board@,
            before.history@,
            table_before.enabled(),
            table_before.slots(),
            outcome.summaries@.len() as int,
        ).slots)
        &&& (outcome.terminate != SearchTerminate::Nothing ==> after.search_state.depth
            == outcome.summaries@.len() + 1)
        &&& (board_legal_moves(before.board@).len() > 0 ==> outcome.best_move is Some)
        &&& (before.search_params.search_mode == SearchMode::GameTime ==> allocated_for(
            before.search_params.game_time,
            board_side_to_move(before.board@),
        ) == Some(after.search_state.allocated_time as int))
    })
}

/// A copy of a line.
pub fn copy_line(line: &Vec<Move>) -> (r: Vec<Move>)
    ensures
        r@ == line@,
{
    let mut copy: Vec<Move> = Vec::new();
    let mut i: usize = 0;
    while i < line.len()
        invariant
            i <= line.len(),
            copy@ == line@.take(i as int),
        decreases line.len() - i,
    {
        copy.push(line[i]);
        i = i + 1;
    }
    copy
}

/// Searches the position depth by depth, from one ply up to the ply ceiling,
/// and reports a summary for every depth it completes.
///
/// When playing on the clock, the time for the move is set aside first and
/// reported. The first depth is always searched to the end; from the second
/// on, the search ends as soon as it is told to, and no depth is started once
/// the time set aside is used up. The best move is the first of the principal
/// variation of the last depth completed.
pub fn iterative_deepening(refs: &mut SearchRefs, table: &mut TranspositionTable) -> (r: Result<
    SearchOutcome,
    SearchError,
>)
    requires
        old(refs).wf(),
        old(refs).search_state.ply == 0,
        old(refs).search_state.terminate == SearchTerminate::Nothing,
    ensures
        search_done(*old(refs), *final(refs), *old(table), *final(table), r),
{
    let mode = refs.search_params.search_mode;
    let mut disconnected = false;
    if mode == SearchMode::GameTime {
        match allocate_time(&refs.search_params.game_time, refs.board.side_to_move()) {
            Some(allocated) => {
                refs.search_state.allocated_time = allocated;
                let text = describe_allocation(allocated);
                let delivered = send_information(
                    refs.report_tx,
                    Information::SearchInformation(SearchInformation::ExtraInfo(text)),
                );
                if !delivered {
                    disconnected = true;
                }
            },
            None => {
                return Err(SearchError::MissingClock);
            },
        }
    }
    let start = now();
    refs.search_state.start_time = Some(start);
    let mut depth: u8 = 1;
    let mut best_move: Option<Move> = None;
    let mut root_pv: Vec<Move> = Vec::new();
    let mut summaries: Vec<SearchSummary> = Vec::new();
    let mut stop = false;
    while depth <= MAX_PLY && !stop
        invariant
            1 <= depth <= MAX_PLY + 1,
            summaries@.len() == depth - 1,
            refs.wf(),
            refs.board == old(refs).board,
            refs.history@ == old(refs).history@,
            refs.search_params == old(refs).search_params,
            refs.search_state.ply == 0,
            refs.search_state.nodes >= old(refs).search_state.nodes,
            mode == refs.search_params.search_mode,
            mode == SearchMode::GameTime ==> allocated_for(
                refs.search_params.game_time,
                board_side_to_move(refs.board@),
            ) == Some(refs.search_state.allocated_time as int),
            !stop ==> refs.search_state.terminate == SearchTerminate::Nothing,
            stop ==> depth >= 2,
            stop ==> refs.search_state.terminate != SearchTerminate::Nothing || disconnected || mode
                == SearchMode::GameTime,
            table_kept(*old(table), *table),
            summaries_ok(refs.board@, summaries@),
            table.enabled() == old(table).enabled(),
            forall|i: int|
                0 <= i < summaries@.len() ==> {
                    let found = deepening(
                        refs.board@,
                        refs.history@,
                        table.enabled(),
                        old(table).slots(),
                        i + 1,
                    );
                    &&& (#[trigger] summaries@[i]).cp == found.score
                    &&& summaries@[i].pv@ == found.line
                },
            refs.search_state.terminate == SearchTerminate::Nothing ==> {
                let found = deepening(
                    refs.board@,
                    refs.history@,
                    table.enabled(),
                    old(table).slots(),
                    depth - 1,
                );
                &&& table.slots() == found.slots
                &&& root_pv@ == found.line
            },
            refs.search_state.terminate != SearchTerminate::Nothing ==> refs.search_state.depth
                == summaries@.len() + 1,
            summaries@.len() > 0 && board_legal_moves(refs.board@).len() > 0 ==> best_move is Some,
            summaries@.len() > 0 ==> best_move == head_of(summaries@.last().pv@)
                && summaries@.last().nodes <= refs.search_state.nodes && summaries@.last().seldepth
                <= refs.search_state.seldepth,
        decreases
                MAX_PLY + 1 - depth,
                (if stop {
                    0int
                } else {
                    1int
                }),
    {
        refs.search_state.depth = depth;
        let eval = negamax(refs, table, &mut root_pv, depth, -INFINITY, INFINITY);
        if refs.search_state.terminate == SearchTerminate::Nothing {
            best_move = if root_pv.len() > 0 {
                Some(root_pv[0])
            } else {
                None
            };
            let elapsed = elapsed_since(&start);
            let nodes = refs.search_state.nodes;
            let seldepth = refs.search_state.seldepth;
            let report = SearchSummary {
                depth,
                seldepth,
                time: elapsed,
                cp: eval,
                nodes,
                nps: nps(nodes, elapsed),
                pv: copy_line(&root_pv),
            };
            let kept = SearchSummary {
                depth,
                seldepth,
                time: elapsed,
                cp: eval,
                nodes,
                nps: nps(nodes, elapsed),
                pv: copy_line(&root_pv),
            };
            let ghost before = summaries@;
            summaries.push(kept);
            proof {
                let after = summaries@;
                assert(after.last() == kept);
                assert forall|i: int| 0 <= i < after.len() implies {
                    &&& (#[trigger] after[i]).depth == i + 1
                    &&& -INFINITY <= after[i].cp <= INFINITY
                    &&& after[i].nps == nodes_per_second(after[i].nodes, after[i].time)
                    &&& is_line(refs.board@, after[i].pv@)
                } by {
                    if i < before.len() {
                        assert(after[i] == before[i]);
                    }
                }
                assert forall|i: int| 0 <= i < after.len() implies ({
                    let found = deepening(
                        refs.board@,
                        refs.history@,
                        table.enabled(),
                        old(table).slots(),
                        i + 1,
                    );
                    &&& (#[trigger] after[i]).cp == found.score
                    &&& after[i].pv@ == found.line
                }) by {
                    if i < before.len() {
                        assert(after[i] == before[i]);
                    }
                }
                assert forall|i: int, j: int| 0 <= i <= j < after.len() implies (
                #[trigger] after[i]).nodes <= (#[trigger] after[j]).nodes && after[i].seldepth
                    <= after[j].seldepth by {
                    if j < before.len() {
                        assert(after[i] == before[i]);
                        assert(after[j] == before[j]);
                    } else if i < before.len() {
                        assert(after[i] == before[i]);
                        assert(before[i].nodes <= before.last().nodes);
                        assert(before[i].seldepth <= before.last().seldepth);
                    }
                }
            }
            let delivered = send_information(
                refs.report_tx,
                Information::SearchInformation(SearchInformation::Summary(report)),
            );
            if !delivered {
                disconnected = true;
                stop = true;
            }
            depth = depth + 1;
        }
        let time_up = budget_is_spent(mode, elapsed_since(&start), refs.search_state.allocated_time);
        if refs.search_state.terminate != SearchTerminate::Nothing || time_up {
            stop = true;
        }
    }
    proof {
        let last = summaries@.last();
        if last.pv@.len() > 0 {
            assert(board_legal_moves(refs.board@).contains(last.pv@[0]));
        }
        if !table.enabled() {
            assert forall|i: int| 0 <= i < summaries@.len() implies (#[trigger] summaries@[i]).cp
                == clamped(
                negamax_value(refs.board@, refs.history@, i + 1, 0),
                -INFINITY as int,
                INFINITY as int,
            ) by {
                lemma_deepening_value(refs.board@, refs.history@, old(table).slots(), i + 1);
            }
        }
    }
    Ok(SearchOutcome { best_move, terminate: refs.search_state.terminate, summaries, disconnected })
}

/// What the worker remembers between commands: the limits it was last given,
/// whether it is halted, and whether it has been told to quit.
#[derive(Debug)]
pub struct SearchWorker {
    pub search_params: Option<SearchParams>,
    pub halt: bool,
    pub quit: bool,
}

impl SearchWorker {
    /// A worker that runs has been given its limits.
    pub open spec fn wf(&self) -> bool {
        !self.halt ==> self.search_params is Some
    }

    /// The worker after `command`: a start brings new limits and lifts the
    /// halt, a stop halts, a quit quits, and nothing changes nothing.
    pub open spec fn after_command(self, command: SearchCommand) -> SearchWorker {
        match command {
            SearchCommand::Start(params) => SearchWorker {
                search_params: Some(params),
                halt: false,
                quit: self.quit,
            },
            SearchCommand::Stop => SearchWorker {
                search_params: self.search_params,
                halt: true,
                quit: self.quit,
            },
            SearchCommand::Quit => SearchWorker {
                search_params: self.search_params,
                halt: self.halt,
                quit: true,
            },
            SearchCommand::Nothing => self,
        }
    }

    /// The worker after a search that ended as `terminate` says: it halts,
    /// and where the search was told to quit, it quits.
    pub open spec fn after_search(self, terminate: SearchTerminate) -> SearchWorker {
        SearchWorker {
            search_params: self.search_params,
            halt: true,
            quit: self.quit || terminate == SearchTerminate::Quit,
        }
    }

    /// A worker that waits for its first command: halted, with no limits.
    pub fn new() -> (r: SearchWorker)
        ensures
            r.wf(),
            r.halt,
            !r.quit,
            r.search_params is None,
    {
        SearchWorker { search_params: None, halt: true, quit: false }
    }

    /// Takes a command, and says whether a search is to be run now and with
    /// which limits: one is run whenever the worker is neither halted nor
    /// told to quit, which is after a start and at no other time.
    pub fn receive(&mut self, command: SearchCommand) -> (run: Option<SearchParams>)
        requires
            old(self).wf(),
        ensures
            final(self).wf(),
            *final(self) == old(self).after_command(command),
            run is Some <==> !final(self).halt && !final(self).quit,
            run is Some ==> run == final(self).search_params,
    {
        match command {
            SearchCommand::Start(params) => {
                self.search_params = Some(params);
                self.halt = false;
            },
            SearchCommand::Stop => {
                self.halt = true;
            },
            SearchCommand::Quit => {
                self.quit = true;
            },
            SearchCommand::Nothing => {},
        }
        if !self.halt && !self.quit {
            self.search_params
        } else {
            None
        }
    }

    /// Runs one search, reports its best move, if it has one, and takes note
    /// of how the search ended.
    pub fn search(&mut self, refs: &mut SearchRefs, table: &mut TranspositionTable) -> (r: Result<
        SearchOutcome,
        SearchError,
    >)
        requires
            old(self).wf(),
            old(refs).wf(),
            old(refs).search_state.ply == 0,
            old(refs).search_state.terminate == SearchTerminate::Nothing,
        ensures
            final(self).wf(),
            search_done(*old(refs), *final(refs), *old(table), *final(table), r),
            match r {
                Ok(outcome) => *final(self) == old(self).after_search(outcome.terminate),
                Err(_) => *final(self) == *old(self),
            },
    {
        match iterative_deepening(refs, table) {
            Ok(found) => {
                let mut outcome = found;
                match outcome.best_move {
                    Some(mv) => {
                        let delivered = send_information(
                            refs.report_tx,
                            Information::SearchInformation(SearchInformation::BestMove(mv)),
                        );
                        if !delivered {
                            outcome.disconnected = true;
                        }
                    },
                    None => {},
                }
                self.finish(outcome.terminate);
                Ok(outcome)
            },
            Err(error) => Err(error),
        }
    }

    /// Takes note of how a search ended.
    pub fn finish(&mut self, terminate: SearchTerminate)
        requires
            old(self).wf(),
        ensures
            final(self).wf(),
            *final(self) == old(self).after_search(terminate),
    {
        self.halt = true;
        match terminate {
            SearchTerminate::Quit => {
                self.quit = true;
            },
            _ => {},
        }
    }
}

/// The line that tells how much time was set aside, worded with
/// `std::time::Duration`'s `Debug` form. It is meant for human eyes, and
/// nothing is claimed of it.
#[verifier::external_body]
fn describe_allocation(allocated: u64) -> (r: String)
{
    format!("allocated time: {:?}", std::time::Duration::from_nanos(allocated))
}

} // verus!
