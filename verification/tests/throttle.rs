use debounce_fltk::throttle::ThrottleState;

/// One period start of a throttler whose task always answers `false`.
fn tick(state: &mut ThrottleState<u32>, runs: &mut Vec<u32>) {
    if let Some(p) = state.throttle_tick() {
        runs.push(p);
        state.record_run(false);
    }
}

/// Drives a throttler through a timeline: period starts every `period`
/// milliseconds from `*next_tick`; `events` are the caller's actions (time,
/// delay first, then request). A period start that falls on the time of an
/// action comes before it, except for actions made right at the start
/// (`starting`), which come before the worker's first check. Returns the
/// parameters the task ran with.
fn run_throttle(
    state: &mut ThrottleState<u32>,
    period: u64,
    events: &[(u64, Option<u32>, bool)],
    end: u64,
    next_tick: &mut u64,
    starting: bool,
) -> Vec<u32> {
    let mut runs = Vec::new();
    let mut first = starting;
    for &(t, param, delay) in events {
        while *next_tick < t || (*next_tick == t && !first) {
            tick(state, &mut runs);
            *next_tick += period;
        }
        if delay {
            state.delay_once();
        }
        if let Some(p) = param {
            state.update_param(p);
        }
        first = false;
    }
    while *next_tick <= end {
        tick(state, &mut runs);
        *next_tick += period;
    }
    runs
}

#[test]
fn throttle_test() {
    // Period 300 ms; a request right after creation, then one every 100 ms
    // up to 1000 ms; observed at 1500 ms.
    let mut state: ThrottleState<u32> = ThrottleState::new();
    let mut next_tick = 0;
    let mut events = vec![(0u64, Some(0u32), false)];
    for i in 1..=10u32 {
        events.push((100 * i as u64, Some(i), false));
    }
    let runs = run_throttle(&mut state, 300, &events, 1500, &mut next_tick, true);
    assert_eq!(runs.len(), 5);
    assert_eq!(runs, vec![0, 2, 5, 8, 10]);

    // Then a delay and a request every 100 ms: every period start is skipped
    // until the requests stop; one run in the end.
    let mut events = Vec::new();
    for i in 1..=10u32 {
        events.push((1500 + 100 * i as u64, Some(i), true));
    }
    let runs = run_throttle(&mut state, 300, &events, 3000, &mut next_tick, false);
    assert_eq!(runs.len(), 1);
    assert_eq!(runs, vec![10]);
}

#[test]
fn requests_run_only_at_period_starts() {
    let mut s: ThrottleState<String> = ThrottleState::new();
    s.update_param("a".to_string());
    s.update_param("b".to_string());
    assert_eq!(s.pending_jobs(), 2);
    assert_eq!(s.throttle_tick(), Some("b".to_string()));
    // the parameter is kept; the answer decides whether work stays pending
    s.record_run(false);
    assert_eq!(s.pending_jobs(), 0);
    assert_eq!(s.throttle_tick(), None);
    s.update_param("c".to_string());
    assert_eq!(s.throttle_tick(), Some("c".to_string()));
}

#[test]
fn true_answer_keeps_running_false_stops() {
    let mut s: ThrottleState<u8> = ThrottleState::new();
    s.update_param(7);
    assert_eq!(s.throttle_tick(), Some(7));
    s.record_run(true);
    assert_eq!(s.pending_jobs(), 2);
    assert_eq!(s.throttle_tick(), Some(7));
    s.record_run(true);
    assert_eq!(s.throttle_tick(), Some(7));
    s.record_run(false);
    assert_eq!(s.throttle_tick(), None);
    assert_eq!(s.throttle_tick(), None);
}

#[test]
fn false_answer_drops_requests_made_during_the_run() {
    let mut s: ThrottleState<u8> = ThrottleState::new();
    s.update_param(1);
    assert_eq!(s.throttle_tick(), Some(1));
    s.update_param(2);
    s.record_run(false);
    assert_eq!(s.pending_jobs(), 0);
    assert_eq!(s.throttle_tick(), None);
}

#[test]
fn delay_skips_one_period_start() {
    let mut s: ThrottleState<u8> = ThrottleState::new();
    s.update_param(5);
    s.delay_once();
    assert_eq!(s.throttle_tick(), None);
    assert_eq!(s.pending_jobs(), 1);
    s.update_param(6);
    assert_eq!(s.throttle_tick(), Some(6));
}
