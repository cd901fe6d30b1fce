use debounce_fltk::timeout::{TimeoutState, TimeoutType, TimerAction, TimerPhase};

const MS: u64 = 1_000_000;

/// Runs the timer thread up to `until`: each step happens at the time the
/// previous action asked for; a zero sleep steps again a nanosecond later.
/// Returns the times and parameters of the runs.
fn drive(s: &mut TimeoutState<u32>, clock: &mut u64, parked: &mut bool, until: u64) -> Vec<(u64, Option<u32>)> {
    let mut runs = Vec::new();
    while !*parked && *clock <= until {
        match s.step(*clock) {
            TimerAction::Sleep(n) => *clock += if n == 0 { 1 } else { n },
            TimerAction::Fire => runs.push((*clock, s.take_fire_param())),
            TimerAction::Park => *parked = true,
            TimerAction::Exit => break,
        }
    }
    runs
}

fn ran(runs: &[(u64, Option<u32>)]) -> usize {
    runs.iter().filter(|r| r.1.is_some()).count()
}

#[test]
fn timeout_test() {
    // A repeating 300 ms timer; the parameter comes at 500 ms, the clock is
    // touched every 100 ms up to 1500 ms.
    let mut s: TimeoutState<u32> = TimeoutState::new(300 * MS, TimeoutType::Repeat, 0);
    let mut clock = 0;
    let mut parked = false;
    let mut runs = drive(&mut s, &mut clock, &mut parked, 500 * MS);
    s.feed_param(1);
    for i in 1..=10u64 {
        runs.extend(drive(&mut s, &mut clock, &mut parked, 500 * MS + i * 100 * MS - 1));
        s.touch(500 * MS + i * 100 * MS);
    }
    runs.extend(drive(&mut s, &mut clock, &mut parked, 2000 * MS - 1));
    assert_eq!(ran(&runs), 1);
    s.touch(2000 * MS);
    let runs = drive(&mut s, &mut clock, &mut parked, 4000 * MS - 1);
    assert_eq!(ran(&runs), 6);
    assert_eq!(s.phase(), TimerPhase::Timing);
}

#[test]
fn timeout_once_more_test() {
    let mut s: TimeoutState<u32> = TimeoutState::new(300 * MS, TimeoutType::OnceMore, 0);
    s.feed_param(0);
    let mut clock = 0;
    let mut parked = false;
    let mut runs = drive(&mut s, &mut clock, &mut parked, 1000 * MS);
    assert!(parked);
    assert!(s.once_more_with_param(1, 1000 * MS));
    parked = false;
    clock = 1000 * MS;
    runs.extend(drive(&mut s, &mut clock, &mut parked, 4000 * MS));
    assert!(s.once_more_with_param(2, 4000 * MS));
    parked = false;
    clock = 4000 * MS;
    runs.extend(drive(&mut s, &mut clock, &mut parked, 4500 * MS));
    let params: Vec<Option<u32>> = runs.iter().map(|r| r.1).collect();
    assert_eq!(params, vec![Some(0), Some(1), Some(2)]);
    assert_eq!(runs[1].0, 1300 * MS + 1);
    assert!(parked);
}

#[test]
fn once_timer_waits_for_param_runs_once_and_ends() {
    let mut s: TimeoutState<u32> = TimeoutState::new(100, TimeoutType::Once, 0);
    assert_eq!(s.step(0), TimerAction::Park);
    assert_eq!(s.phase(), TimerPhase::Parked);
    s.feed_param(9);
    assert_eq!(s.step(50), TimerAction::Sleep(50));
    assert_eq!(s.step(100), TimerAction::Sleep(0));
    assert_eq!(s.step(101), TimerAction::Fire);
    assert_eq!(s.last_tick(), 101);
    assert_eq!(s.take_fire_param(), Some(9));
    assert!(!s.has_param());
    assert_eq!(s.step(150), TimerAction::Exit);
    assert_eq!(s.step(1000), TimerAction::Exit);
    assert_eq!(s.phase(), TimerPhase::Finished);
}

#[test]
fn stop_repeat_ends_after_next_run() {
    let mut s: TimeoutState<u32> = TimeoutState::new(10, TimeoutType::Repeat, 0);
    assert_eq!(s.step(0), TimerAction::Sleep(10));
    assert_eq!(s.step(11), TimerAction::Fire);
    assert_eq!(s.take_fire_param(), None);
    s.feed_param(4);
    assert_eq!(s.step(22), TimerAction::Fire);
    assert_eq!(s.take_fire_param(), Some(4));
    assert!(s.has_param());
    s.stop_repeat();
    assert_eq!(s.timeout_type(), TimeoutType::Once);
    assert_eq!(s.step(30), TimerAction::Sleep(2));
    assert_eq!(s.step(33), TimerAction::Fire);
    assert_eq!(s.take_fire_param(), Some(4));
    assert_eq!(s.step(34), TimerAction::Exit);
}

#[test]
fn touch_postpones_and_once_more_only_for_once_more() {
    let mut s: TimeoutState<u32> = TimeoutState::new(10, TimeoutType::Repeat, 0);
    s.touch(8);
    assert_eq!(s.step(12), TimerAction::Sleep(6));
    assert!(!s.once_more_with_param(5, 12));
    assert!(!s.has_param());
    assert_eq!(s.last_tick(), 8);
}

#[test]
fn fires_with_the_parameter_fed_last() {
    let mut s: TimeoutState<u32> = TimeoutState::new(5, TimeoutType::Once, 0);
    s.feed_param(1);
    s.feed_param(2);
    assert_eq!(s.step(3), TimerAction::Sleep(2));
    s.feed_param(3);
    assert_eq!(s.step(6), TimerAction::Fire);
    assert_eq!(s.take_fire_param(), Some(3));
}

#[test]
fn stop_repeat_leaves_once_more_timer_armable() {
    let mut s: TimeoutState<u32> = TimeoutState::new(10, TimeoutType::OnceMore, 0);
    s.feed_param(1);
    assert_eq!(s.step(11), TimerAction::Fire);
    assert_eq!(s.take_fire_param(), Some(1));
    assert_eq!(s.step(12), TimerAction::Park);
    s.stop_repeat();
    assert_eq!(s.timeout_type(), TimeoutType::OnceMore);
    assert!(s.once_more_with_param(2, 20));
    assert_eq!(s.step(25), TimerAction::Sleep(5));
    assert_eq!(s.step(31), TimerAction::Fire);
    assert_eq!(s.take_fire_param(), Some(2));
    assert_eq!(s.step(32), TimerAction::Park);
}
