use kychess::board::Color;
use kychess::clock::{allocate_time, budget_is_spent, nps, time_is_up};
use kychess::search::SearchMode;
use kychess::uci::GameTime;

const MS: u64 = 1_000_000;
const S: u64 = 1_000_000_000;

fn clocks(wtime: u64, btime: u64, winc: Option<u64>, binc: Option<u64>, mtg: Option<u8>) -> GameTime {
    GameTime { wtime: Some(wtime), btime: Some(btime), winc, binc, mtg }
}

#[test]
fn a_twentieth_of_the_clock_without_moves_to_go() {
    // 60 s / 20 + 1 s - 0.1 s = 3.9 s, of which four tenths.
    let game_time = clocks(60 * S, 30 * S, Some(S), None, None);
    assert_eq!(allocate_time(&game_time, Color::White), Some(1_560 * MS));
    // 30 s / 20 + 0 - 0.1 s = 1.4 s, of which four tenths.
    assert_eq!(allocate_time(&game_time, Color::Black), Some(560 * MS));
}

#[test]
fn the_clock_divided_by_the_moves_to_go() {
    // 60 s / 10 - 0.1 s = 5.9 s, of which four tenths.
    let game_time = clocks(60 * S, 60 * S, None, Some(2 * S), Some(10));
    assert_eq!(allocate_time(&game_time, Color::White), Some(2_360 * MS));
    // 60 s / 10 + 2 s - 0.1 s = 7.9 s, of which four tenths.
    assert_eq!(allocate_time(&game_time, Color::Black), Some(3_160 * MS));
}

#[test]
fn the_whole_clock_for_the_last_move() {
    // 10 s - 0.1 s = 9.9 s, of which four tenths.
    let game_time = clocks(10 * S, 10 * S, None, None, Some(0));
    assert_eq!(allocate_time(&game_time, Color::White), Some(3_960 * MS));
}

#[test]
fn nothing_is_allocated_from_less_than_the_margin() {
    let game_time = clocks(S, 2 * S, None, None, None);
    // 1 s / 20 = 50 ms, less than the margin of 100 ms.
    assert_eq!(allocate_time(&game_time, Color::White), Some(0));
    // 2 s / 20 = 100 ms, the margin itself.
    assert_eq!(allocate_time(&game_time, Color::Black), Some(0));
    let little = clocks(2 * S + 20 * MS, 0, None, Some(103 * MS), None);
    // 101 ms - 100 ms = 1 ms, of which four tenths.
    assert_eq!(allocate_time(&little, Color::White), Some(400_000));
    // 0 + 103 ms - 100 ms = 3 ms, of which four tenths.
    assert_eq!(allocate_time(&little, Color::Black), Some(1_200_000));
}

#[test]
fn no_clock_no_allocation() {
    let game_time = GameTime { wtime: None, btime: Some(S), winc: Some(S), binc: None, mtg: None };
    assert_eq!(allocate_time(&game_time, Color::White), None);
    assert!(allocate_time(&game_time, Color::Black).is_some());
    assert_eq!(allocate_time(&GameTime::default(), Color::Black), None);
}

#[test]
fn the_largest_clocks_do_not_overflow() {
    let game_time = clocks(u64::MAX, u64::MAX, Some(u64::MAX), None, Some(0));
    let expected = ((u64::MAX as u128 * 2 - 100_000_000) * 2 / 5) as u64;
    assert_eq!(allocate_time(&game_time, Color::White), Some(expected));
}

#[test]
fn a_search_without_limit_never_runs_out() {
    assert!(!time_is_up(SearchMode::Infinite, u64::MAX, 0, 0));
}

#[test]
fn a_fixed_time_is_up_when_passed() {
    assert!(!time_is_up(SearchMode::MoveTime, 50 * MS, 50 * MS, 0));
    assert!(time_is_up(SearchMode::MoveTime, 50 * MS + 1, 50 * MS, 0));
    assert!(!time_is_up(SearchMode::MoveTime, 0, 0, 0));
    assert!(time_is_up(SearchMode::MoveTime, 1, 0, 0));
}

#[test]
fn a_short_allocation_may_not_be_overrun() {
    assert!(!time_is_up(SearchMode::GameTime, 5 * S - 2, 0, 5 * S - 1));
    assert!(time_is_up(SearchMode::GameTime, 5 * S - 1, 0, 5 * S - 1));
    assert!(!time_is_up(SearchMode::GameTime, 2 * S - 1, 0, 2 * S));
    assert!(time_is_up(SearchMode::GameTime, 2 * S, 0, 2 * S));
    assert!(time_is_up(SearchMode::GameTime, 0, 0, 0));
}

#[test]
fn five_seconds_are_a_middling_allocation() {
    assert!(!time_is_up(SearchMode::GameTime, 6 * S, 0, 5 * S));
    assert!(!time_is_up(SearchMode::GameTime, 7_500_000_000 - 1, 0, 5 * S));
    assert!(time_is_up(SearchMode::GameTime, 7_500_000_000, 0, 5 * S));
}

#[test]
fn a_middling_allocation_may_be_overrun_by_half() {
    assert!(!time_is_up(SearchMode::GameTime, 15 * S - 1, 0, 10 * S));
    assert!(time_is_up(SearchMode::GameTime, 15 * S, 0, 10 * S));
    assert!(!time_is_up(SearchMode::GameTime, 45 * S - 1, 0, 30 * S));
    assert!(time_is_up(SearchMode::GameTime, 45 * S, 0, 30 * S));
    // One nanosecond over five seconds: half as much again, to the half nanosecond.
    assert!(!time_is_up(SearchMode::GameTime, 7_500_000_001, 0, 5 * S + 1));
    assert!(time_is_up(SearchMode::GameTime, 7_500_000_002, 0, 5 * S + 1));
}

#[test]
fn a_generous_allocation_may_be_overrun_twice() {
    assert!(!time_is_up(SearchMode::GameTime, 60 * S + 1, 0, 30 * S + 1));
    assert!(time_is_up(SearchMode::GameTime, 60 * S + 2, 0, 30 * S + 1));
    assert!(!time_is_up(SearchMode::GameTime, u64::MAX, 0, u64::MAX));
}

#[test]
fn no_depth_is_started_on_a_spent_budget() {
    assert!(!budget_is_spent(SearchMode::GameTime, 5, 5));
    assert!(budget_is_spent(SearchMode::GameTime, 6, 5));
    assert!(!budget_is_spent(SearchMode::MoveTime, 6, 5));
    assert!(!budget_is_spent(SearchMode::Infinite, 6, 5));
}

#[test]
fn nodes_in_a_second() {
    assert_eq!(nps(1000, S), 1000);
    assert_eq!(nps(1000, S / 2), 2000);
    assert_eq!(nps(1, 3 * S), 0);
    assert_eq!(nps(7, 2 * S), 3);
    assert_eq!(nps(0, 0), 0);
    assert_eq!(nps(1, 0), u64::MAX);
    assert_eq!(nps(u64::MAX, 1), u64::MAX);
    assert_eq!(nps(u64::MAX, S), u64::MAX);
    assert_eq!(nps(u64::MAX, 2 * S), u64::MAX / 2);
}
