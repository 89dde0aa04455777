//! The order in which a node tries its moves.

use vstd::prelude::*;

use crate::board::{captures, is_capture, Color, Move, Occupant, Placement};

verus! {

/// The moves among the first `n` that are not `skip` and that capture, or
/// that do not, as `capturing` says; in the order in which they stand.
pub open spec fn picked(
    moves: Seq<Move>,
    squares: Seq<Option<Occupant>>,
    mover: Color,
    skip: Option<Move>,
    capturing: bool,
    n: int,
) -> Seq<Move>
    decreases n,
{
    if n <= 0 {
        Seq::empty()
    } else {
        let before = picked(moves, squares, mover, skip, capturing, n - 1);
        let mv = moves[n - 1];
        if Some(mv) != skip && is_capture(squares, mover, mv) == capturing {
            before.push(mv)
        } else {
            before
        }
    }
}

/// The move to try first: the hint, if it is among the moves.
pub open spec fn hinted(moves: Seq<Move>, hint: Option<Move>) -> Seq<Move> {
    match hint {
        Some(mv) => if moves.contains(mv) {
            seq![mv]
        } else {
            Seq::empty()
        },
        None => Seq::empty(),
    }
}

/// The order in which a node tries its moves: the hinted move first if it is
/// legal, then the captures, then the rest, each group in the generator's order.
pub open spec fn ordered_moves(
    moves: Seq<Move>,
    squares: Seq<Option<Occupant>>,
    mover: Color,
    hint: Option<Move>,
) -> Seq<Move> {
    let skip = if hinted(moves, hint).len() > 0 {
        hint
    } else {
        None
    };
    hinted(moves, hint) + picked(moves, squares, mover, skip, true, moves.len() as int) + picked(
        moves,
        squares,
        mover,
        skip,
        false,
        moves.len() as int,
    )
}

/// The captures among the moves, in the generator's order.
pub open spec fn capturing_moves(
    moves: Seq<Move>,
    squares: Seq<Option<Occupant>>,
    mover: Color,
) -> Seq<Move> {
    picked(moves, squares, mover, None, true, moves.len() as int)
}

/// A picked move is one of the moves picked from, and a move picked from is
/// picked exactly when it is not skipped and captures as asked.
pub proof fn lemma_picked_contains(
    moves: Seq<Move>,
    squares: Seq<Option<Occupant>>,
    mover: Color,
    skip: Option<Move>,
    capturing: bool,
    n: int,
    mv: Move,
)
    requires
        0 <= n <= moves.len(),
    ensures
        picked(moves, squares, mover, skip, capturing, n).contains(mv) <==> (Some(mv) != skip
            && is_capture(squares, mover, mv) == capturing && exists|j: int|
            0 <= j < n && moves[j] == mv),
    decreases n,
{
    if n > 0 {
        lemma_picked_contains(moves, squares, mover, skip, capturing, n - 1, mv);
        let before = picked(moves, squares, mover, skip, capturing, n - 1);
        let last = moves[n - 1];
        if Some(last) != skip && is_capture(squares, mover, last) == capturing {
            let now = before.push(last);
            if before.contains(mv) {
                let j = choose|j: int| 0 <= j < before.len() && before[j] == mv;
                assert(now[j] == mv);
            }
            if last == mv {
                assert(now[now.len() - 1] == mv);
            }
            if now.contains(mv) {
                let j = choose|j: int| 0 <= j < now.len() && now[j] == mv;
                if j < before.len() {
                    assert(before[j] == mv);
                }
            }
        }
    }
}

/// Ordering loses no move and invents none.
pub proof fn lemma_ordered_contains(
    moves: Seq<Move>,
    squares: Seq<Option<Occupant>>,
    mover: Color,
    hint: Option<Move>,
    mv: Move,
)
    ensures
        ordered_moves(moves, squares, mover, hint).contains(mv) <==> moves.contains(mv),
{
    let first = hinted(moves, hint);
    let skip = if first.len() > 0 {
        hint
    } else {
        None
    };
    let n = moves.len() as int;
    let taking = picked(moves, squares, mover, skip, true, n);
    let quiet = picked(moves, squares, mover, skip, false, n);
    let all = first + taking + quiet;
    lemma_picked_contains(moves, squares, mover, skip, true, n, mv);
    lemma_picked_contains(moves, squares, mover, skip, false, n, mv);
    if all.contains(mv) {
        let j = choose|j: int| 0 <= j < all.len() && all[j] == mv;
        if j < first.len() {
            assert(first[j] == mv);
        } else if j < first.len() + taking.len() {
            assert(taking[j - first.len()] == mv);
        } else {
            assert(quiet[j - first.len() - taking.len()] == mv);
        }
    }
    if moves.contains(mv) {
        if Some(mv) == skip {
            assert(first[0] == mv);
            assert(all[0] == mv);
        } else if is_capture(squares, mover, mv) {
            let j = choose|j: int| 0 <= j < taking.len() && taking[j] == mv;
            assert(all[first.len() + j] == mv);
        } else {
            let j = choose|j: int| 0 <= j < quiet.len() && quiet[j] == mv;
            assert(all[first.len() + taking.len() + j] == mv);
        }
    }
}

/// Whether `mv` is among `moves`.
pub fn contains_move(moves: &Vec<Move>, mv: Move) -> (r: bool)
    ensures
        r == moves@.contains(mv),
{
    let mut i: usize = 0;
    while i < moves.len()
        invariant
            i <= moves.len(),
            forall|j: int| 0 <= j < i ==> moves@[j] != mv,
        decreases moves.len() - i,
    {
        if moves[i] == mv {
            return true;
        }
        i = i + 1;
    }
    false
}

/// Adds to `out` the moves that are not `skip` and that capture, or that do
/// not, as `capturing` says.
fn pick_moves(
    out: &mut Vec<Move>,
    moves: &Vec<Move>,
    placement: &Placement,
    mover: Color,
    skip: Option<Move>,
    capturing: bool,
)
    requires
        placement.wf(),
        forall|i: int| 0 <= i < moves@.len() ==> (#[trigger] moves@[i]).to < 64,
    ensures
        final(out)@ == old(out)@ + picked(
            moves@,
            placement@,
            mover,
            skip,
            capturing,
            moves@.len() as int,
        ),
{
    let mut i: usize = 0;
    while i < moves.len()
        invariant
            i <= moves.len(),
            placement.wf(),
            forall|j: int| 0 <= j < moves@.len() ==> (#[trigger] moves@[j]).to < 64,
            out@ == old(out)@ + picked(moves@, placement@, mover, skip, capturing, i as int),
        decreases moves.len() - i,
    {
        let mv = moves[i];
        let skipped = match skip {
            Some(s) => s == mv,
            None => false,
        };
        if !skipped && captures(placement, mover, mv) == capturing {
            out.push(mv);
        }
        i = i + 1;
    }
}

/// The order in which a node tries its moves: the hinted move first if it is
/// legal, then the captures, then the rest.
pub fn move_ordering(moves: &Vec<Move>, placement: &Placement, mover: Color, hint: Option<Move>) -> (r:
    Vec<Move>)
    requires
        placement.wf(),
        forall|i: int| 0 <= i < moves@.len() ==> (#[trigger] moves@[i]).to < 64,
    ensures
        r@ == ordered_moves(moves@, placement@, mover, hint),
        forall|mv: Move| r@.contains(mv) <==> moves@.contains(mv),
{
    let mut ordered: Vec<Move> = Vec::new();
    let mut skip: Option<Move> = None;
    match hint {
        Some(mv) => {
            if contains_move(moves, mv) {
                ordered.push(mv);
                skip = hint;
            }
        },
        None => {},
    }
    assert(ordered@ == hinted(moves@, hint));
    pick_moves(&mut ordered, moves, placement, mover, skip, true);
    pick_moves(&mut ordered, moves, placement, mover, skip, false);
    proof {
        assert forall|mv: Move| ordered@.contains(mv) <==> moves@.contains(mv) by {
            lemma_ordered_contains(moves@, placement@, mover, hint, mv);
        }
    }
    ordered
}

/// The captures among the moves, in the generator's order.
pub fn capture_moves(moves: &Vec<Move>, placement: &Placement, mover: Color) -> (r: Vec<Move>)
    requires
        placement.wf(),
        forall|i: int| 0 <= i < moves@.len() ==> (#[trigger] moves@[i]).to < 64,
    ensures
        r@ == capturing_moves(moves@, placement@, mover),
        forall|mv: Move| r@.contains(mv) ==> moves@.contains(mv),
{
    let mut taking: Vec<Move> = Vec::new();
    pick_moves(&mut taking, moves, placement, mover, None, true);
    proof {
        assert forall|mv: Move| taking@.contains(mv) implies moves@.contains(mv) by {
            lemma_picked_contains(moves@, placement@, mover, None, true, moves@.len() as int, mv);
        }
    }
    taking
}

/// Picking reads the first 64 squares and nothing else.
pub proof fn lemma_picked_agrees(
    moves: Seq<Move>,
    a: Seq<Option<Occupant>>,
    b: Seq<Option<Occupant>>,
    mover: Color,
    skip: Option<Move>,
    capturing: bool,
    n: int,
)
    requires
        0 <= n <= moves.len(),
        forall|i: int| 0 <= i < 64 ==> a[i] == b[i],
        forall|i: int| 0 <= i < moves.len() ==> (#[trigger] moves[i]).to < 64,
    ensures
        picked(moves, a, mover, skip, capturing, n) == picked(moves, b, mover, skip, capturing, n),
    decreases n,
{
    if n > 0 {
        lemma_picked_agrees(moves, a, b, mover, skip, capturing, n - 1);
        assert(moves[n - 1].to < 64);
    }
}

/// Ordering reads the first 64 squares and nothing else.
pub proof fn lemma_ordered_agrees(
    moves: Seq<Move>,
    a: Seq<Option<Occupant>>,
    b: Seq<Option<Occupant>>,
    mover: Color,
    hint: Option<Move>,
)
    requires
        forall|i: int| 0 <= i < 64 ==> a[i] == b[i],
        forall|i: int| 0 <= i < moves.len() ==> (#[trigger] moves[i]).to < 64,
    ensures
        ordered_moves(moves, a, mover, hint) == ordered_moves(moves, b, mover, hint),
{
    let skip = if hinted(moves, hint).len() > 0 {
        hint
    } else {
        None
    };
    lemma_picked_agrees(moves, a, b, mover, skip, true, moves.len() as int);
    lemma_picked_agrees(moves, a, b, mover, skip, false, moves.len() as int);
}

} // verus!
