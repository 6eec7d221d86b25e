use slide_puzzle::clock::Clock;
use slide_puzzle::game_state::elapsed;
use slide_puzzle::game_state::timer_reading;
use slide_puzzle::game_state::ForcedState;
use slide_puzzle::game_state::GameState;

#[test]
fn first_move_starts_the_attempt() {
    assert_eq!(GameState::NotSolving.on_move(false, 40), GameState::Solving { since: 40 });
    assert_eq!(GameState::NotSolving.on_move(true, 40), GameState::Solving { since: 40 });
}

#[test]
fn solving_move_ends_the_attempt() {
    let state = GameState::Solving { since: 1_000 };
    assert_eq!(state.on_move(false, 5_000), GameState::Solving { since: 1_000 });
    assert_eq!(state.on_move(true, 5_000), GameState::Solved { took: 4_000 });
}

#[test]
fn moves_after_the_end_change_nothing() {
    let state = GameState::Solved { took: 77 };
    assert_eq!(state.on_move(false, 5_000), state);
    assert_eq!(state.on_move(true, 5_000), state);
}

#[test]
fn whole_attempt() {
    let state = GameState::NotSolving
        .on_move(false, 2_000_000)
        .on_move(false, 3_000_000)
        .on_move(true, 9_500_000);
    assert_eq!(state, GameState::Solved { took: 7_500_000 });
    assert_eq!(state.force(ForcedState::NotSolving, 10_000_000), GameState::NotSolving);
}

#[test]
fn forced_states() {
    let states = [
        GameState::NotSolving,
        GameState::Solving { since: 10 },
        GameState::Solved { took: 3 },
    ];
    for state in states {
        assert_eq!(state.force(ForcedState::NotSolving, 50), GameState::NotSolving);
        assert_eq!(state.force(ForcedState::Solving, 50), GameState::Solving { since: 50 });
    }
    assert_eq!(GameState::NotSolving.force(ForcedState::Solved, 50), GameState::NotSolving);
    assert_eq!(
        GameState::Solving { since: 10 }.force(ForcedState::Solved, 50),
        GameState::Solved { took: 40 }
    );
    assert_eq!(
        GameState::Solved { took: 3 }.force(ForcedState::Solved, 50),
        GameState::Solved { took: 3 }
    );
}

#[test]
fn solve_time_by_state() {
    assert_eq!(GameState::NotSolving.solve_time_at(99), None);
    assert_eq!(GameState::Solving { since: 30 }.solve_time_at(99), Some(69));
    assert_eq!(GameState::Solving { since: 30 }.solve_time_at(100), Some(70));
    assert_eq!(GameState::Solved { took: 12 }.solve_time_at(99), Some(12));
}

#[test]
fn time_before_the_start_counts_as_none_passed() {
    assert_eq!(elapsed(10, 4), 0);
    assert_eq!(elapsed(10, 10), 0);
    assert_eq!(elapsed(10, 11), 1);
    assert_eq!(elapsed(0, u128::MAX), u128::MAX);
    assert_eq!(GameState::Solving { since: 30 }.solve_time_at(7), Some(0));
    assert_eq!(
        GameState::Solving { since: 30 }.on_move(true, 7),
        GameState::Solved { took: 0 }
    );
}

#[test]
fn timer_shows_seconds_and_millis() {
    assert_eq!(timer_reading(0), (0, 0));
    assert_eq!(timer_reading(999_999), (0, 0));
    assert_eq!(timer_reading(1_000_000), (0, 1));
    assert_eq!(timer_reading(999_999_999), (0, 999));
    assert_eq!(timer_reading(1_000_000_000), (1, 0));
    assert_eq!(timer_reading(83_456_789_012), (83, 456));
    assert_eq!(
        timer_reading(u128::MAX),
        (340_282_366_920_938_463_463_374_607_431, 768)
    );
}

#[test]
fn clock_does_not_run_backwards() {
    let clock = Clock::start();
    let mut last: u128 = clock.now();
    for _ in 0..1000 {
        let now: u128 = clock.now();
        assert!(now >= last);
        last = now;
    }
}

#[test]
fn live_solve_time_follows_the_clock() {
    let clock = Clock::start();
    assert_eq!(GameState::NotSolving.solve_time(&clock), None);
    assert_eq!(GameState::Solved { took: 5 }.solve_time(&clock), Some(5));
    let since: u128 = clock.now();
    let state = GameState::Solving { since };
    while clock.now() < since + 3_000_000 {}
    let before: u128 = clock.now();
    let shown: u128 = state.solve_time(&clock).unwrap();
    let after: u128 = clock.now();
    assert!(shown >= before - since);
    assert!(shown <= after - since);
    assert!(shown >= 3_000_000);
    let ended = state.on_move(true, clock.now());
    match ended {
        GameState::Solved { took } => {
            assert!(took >= shown);
            assert!(took <= clock.now() - since);
            assert_eq!(ended.solve_time(&clock), Some(took));
        }
        _ => panic!("the attempt did not end"),
    }
}
