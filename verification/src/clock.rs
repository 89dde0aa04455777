//! Time management: how much of the clock one move may use, and when a
//! search that is under way has used its time. All times are in nanoseconds.

use vstd::prelude::*;

use crate::board::Color;
use crate::search::SearchMode;
use crate::uci::GameTime;

verus! {

/// One second.
pub const SECOND: u64 = 1000000000;

/// What is kept back from every slice of the clock.
pub const SAFETY_MARGIN: u64 = 100000000;

/// An allocation below this may not be overrun at all.
pub const CRITICAL_TIME: u64 = 5000000000;

/// An allocation above this may be overrun to twice its length.
pub const OK_TIME: u64 = 30000000000;

/// Without a count of moves to the next time control, the clock is meant to
/// last for this many moves.
pub const DEFAULT_MOVES_TO_GO: u64 = 20;

/// What is left on one side's clock, if the clock is known.
pub open spec fn clock_of(game_time: GameTime, side: Color) -> Option<u64> {
    match side {
        Color::White => game_time.wtime,
        Color::Black => game_time.btime,
    }
}

/// What one side gains with every move; nothing where none is given.
pub open spec fn increment_of(game_time: GameTime, side: Color) -> u64 {
    match side {
        Color::White => match game_time.winc {
            Some(increment) => increment,
            None => 0,
        },
        Color::Black => match game_time.binc {
            Some(increment) => increment,
            None => 0,
        },
    }
}

/// The clock's share for one move: the whole clock when the time control is
/// reached with this move, else the clock divided by the moves still to
/// make, or by `DEFAULT_MOVES_TO_GO` where their number is not known.
pub open spec fn base_time(clock: u64, moves_to_go: Option<u8>) -> int {
    match moves_to_go {
        Some(moves) => if moves == 0 {
            clock as int
        } else {
            clock as int / moves as int
        },
        None => clock as int / DEFAULT_MOVES_TO_GO as int,
    }
}

/// The share with the increment added and the safety margin taken off, and
/// nothing where the margin is more than there is.
pub open spec fn time_slice(clock: u64, increment: u64, moves_to_go: Option<u8>) -> int {
    let gross = base_time(clock, moves_to_go) + increment;
    if gross >= SAFETY_MARGIN {
        gross - SAFETY_MARGIN
    } else {
        0
    }
}

/// What a move may use: four tenths of its slice.
pub open spec fn allocation(clock: u64, increment: u64, moves_to_go: Option<u8>) -> int {
    time_slice(clock, increment, moves_to_go) * 2 / 5
}

/// What the side to move may use for this move, if its clock is known.
pub open spec fn allocated_for(game_time: GameTime, side: Color) -> Option<int> {
    match clock_of(game_time, side) {
        Some(clock) => Some(allocation(clock, increment_of(game_time, side), game_time.mtg)),
        None => None,
    }
}

/// Twice the factor by which an allocation may be overrun: twice for a
/// generous allocation, by half for a middling one, not at all for a short one.
pub open spec fn overshoot_doubled(allocated: u64) -> int {
    if allocated > OK_TIME {
        4
    } else if allocated >= CRITICAL_TIME {
        3
    } else {
        2
    }
}

/// Whether a search that has run for `elapsed` must stop at once: never when
/// there is no limit, past the fixed time when there is one, and at the
/// allocation times its overshoot factor when playing on the clock.
pub open spec fn out_of_time(mode: SearchMode, elapsed: u64, move_time: u64, allocated: u64) -> bool {
    match mode {
        SearchMode::Infinite => false,
        SearchMode::MoveTime => elapsed > move_time,
        SearchMode::GameTime => 2 * elapsed >= allocated * overshoot_doubled(allocated),
    }
}

/// Whether no further depth should be started: when playing on the clock,
/// once the allocation is used up.
pub open spec fn budget_spent(mode: SearchMode, elapsed: u64, allocated: u64) -> bool {
    mode == SearchMode::GameTime && elapsed > allocated
}

/// How many nodes a second were searched; with no time on the clock, none
/// for no nodes and the largest number for any.
pub open spec fn nodes_per_second(nodes: u64, elapsed: u64) -> int {
    if elapsed == 0 {
        if nodes == 0 {
            0
        } else {
            u64::MAX as int
        }
    } else if nodes as int * SECOND as int / elapsed as int > u64::MAX {
        u64::MAX as int
    } else {
        nodes as int * SECOND as int / elapsed as int
    }
}

/// An allocation never exceeds the clock and the increment together, so
/// time is always left for the moves to come.
pub proof fn lemma_allocation_bounds(clock: u64, increment: u64, moves_to_go: Option<u8>)
    ensures
        0 <= allocation(clock, increment, moves_to_go) <= clock + increment,
        allocation(clock, increment, moves_to_go) <= u64::MAX,
{
    let base = base_time(clock, moves_to_go);
    assert(0 <= base <= clock) by {
        match moves_to_go {
            Some(moves) => {
                if moves != 0 {
                    assert(0 <= clock as int / moves as int <= clock as int) by (nonlinear_arith)
                        requires
                            moves as int >= 1,
                            clock as int >= 0,
                    ;
                }
            },
            None => {},
        }
    }
}

/// What the side to move may use for this move; `None` when its clock is
/// not known.
pub fn allocate_time(game_time: &GameTime, side: Color) -> (r: Option<u64>)
    ensures
        match r {
            Some(allocated) => allocated_for(*game_time, side) == Some(allocated as int),
            None => allocated_for(*game_time, side) is None,
        },
{
    let clock = match side {
        Color::White => game_time.wtime,
        Color::Black => game_time.btime,
    };
    let increment = match side {
        Color::White => game_time.winc,
        Color::Black => game_time.binc,
    };
    let increment: u64 = match increment {
        Some(increment) => increment,
        None => 0,
    };
    match clock {
        Some(clock) => {
            let base: u64 = match game_time.mtg {
                Some(moves) => if moves == 0 {
                    clock
                } else {
                    clock / moves as u64
                },
                None => clock / DEFAULT_MOVES_TO_GO,
            };
            proof {
                lemma_allocation_bounds(clock, increment, game_time.mtg);
            }
            let gross: u128 = base as u128 + increment as u128;
            let slice: u128 = if gross >= SAFETY_MARGIN as u128 {
                (gross - SAFETY_MARGIN as u128) as u128
            } else {
                0
            };
            Some((slice * 2 / 5) as u64)
        },
        None => None,
    }
}

/// Whether a search that has run for `elapsed` must stop at once.
pub fn time_is_up(mode: SearchMode, elapsed: u64, move_time: u64, allocated: u64) -> (r: bool)
    ensures
        r == out_of_time(mode, elapsed, move_time, allocated),
{
    match mode {
        SearchMode::Infinite => false,
        SearchMode::MoveTime => elapsed > move_time,
        SearchMode::GameTime => {
            let factor: u128 = if allocated > OK_TIME {
                4
            } else if allocated >= CRITICAL_TIME {
                3
            } else {
                2
            };
            2 * (elapsed as u128) >= allocated as u128 * factor
        },
    }
}

/// Whether no further depth should be started.
pub fn budget_is_spent(mode: SearchMode, elapsed: u64, allocated: u64) -> (r: bool)
    ensures
        r == budget_spent(mode, elapsed, allocated),
{
    match mode {
        SearchMode::GameTime => elapsed > allocated,
        _ => false,
    }
}

/// How many nodes a second were searched.
pub fn nps(nodes: u64, elapsed: u64) -> (r: u64)
    ensures
        r == nodes_per_second(nodes, elapsed),
{
    if elapsed == 0 {
        if nodes == 0 {
            0
        } else {
            u64::MAX
        }
    } else {
        assert(nodes as int * SECOND as int <= u64::MAX as int * SECOND as int) by (nonlinear_arith)
            requires
                nodes <= u64::MAX,
                SECOND >= 0,
        ;
        let rate: u128 = nodes as u128 * SECOND as u128 / elapsed as u128;
        if rate > u64::MAX as u128 {
            u64::MAX
        } else {
            rate as u64
        }
    }
}

// ---------------------------------------------------------------------------
// What is taken on trust from the standard library's clock.
// ---------------------------------------------------------------------------

/// `std::time::Instant`, a moment of the clock; nothing is known of it.
#[verifier::external_type_specification]
#[verifier::external_body]
pub struct ExInstant(std::time::Instant);

/// `std::time::Instant::now`: the present moment. Nothing is known of it.
#[verifier::external_body]
pub(crate) fn now() -> (r: std::time::Instant)
{
    std::time::Instant::now()
}

/// `std::time::Instant::elapsed`, in nanoseconds: the time since `start`,
/// and the largest number where it does not fit. Nothing else is known of it.
#[verifier::external_body]
pub(crate) fn elapsed_since(start: &std::time::Instant) -> (r: u64)
{
    u64::try_from(start.elapsed().as_nanos()).unwrap_or(u64::MAX)
}

} // verus!
