use debounce_fltk::debounce::DebounceState;

/// Drives a debouncer through a timeline: `period` between period ends, the
/// first one a period after the start; `events` are the caller's actions at
/// given times (in milliseconds), applied after a period end that falls on
/// the same time. Returns the parameters the task ran with.
fn run_debounce(
    state: &mut DebounceState<u32>,
    period: u64,
    events: &[(u64, Option<u32>, bool)],
    end: u64,
    next_tick: &mut u64,
) -> Vec<u32> {
    let mut runs = Vec::new();
    for &(t, param, delay) in events {
        while *next_tick <= t {
            if let Some(p) = state.debounce_tick() {
                runs.push(p);
            }
            *next_tick += period;
        }
        if let Some(p) = param {
            state.update_param(p);
        }
        if delay {
            state.delay_once();
        }
    }
    while *next_tick <= end {
        if let Some(p) = state.debounce_tick() {
            runs.push(p);
        }
        *next_tick += period;
    }
    runs
}

#[test]
fn debounce_test() {
    // Period 300 ms; a request at 0 and then every 100 ms up to 1000 ms;
    // observed at 1500 ms.
    let mut state: DebounceState<u32> = DebounceState::new();
    let mut next_tick = 300;
    let mut events = vec![(0u64, Some(0u32), false)];
    for i in 1..=10u32 {
        events.push((100 * i as u64, Some(i), false));
    }
    let runs = run_debounce(&mut state, 300, &events, 1500, &mut next_tick);
    assert_eq!(runs.len(), 4);
    assert_eq!(runs, vec![2, 5, 8, 10]);

    // Then a request and a delay every 100 ms: every period end is skipped
    // until the requests stop; one run in the end.
    let mut events = Vec::new();
    for i in 1..=10u32 {
        events.push((1500 + 100 * i as u64, Some(i), true));
    }
    let runs = run_debounce(&mut state, 300, &events, 3000, &mut next_tick);
    assert_eq!(runs.len(), 1);
    assert_eq!(runs, vec![10]);
}

#[test]
fn debounce_test2() {
    // Period 1000 ms, a request every 200 ms: each run takes the latest one.
    let mut state: DebounceState<u32> = DebounceState::new();
    let mut next_tick = 1000;
    let events: Vec<(u64, Option<u32>, bool)> =
        (0..50u32).map(|i| (200 * i as u64, Some(i), false)).collect();
    let runs = run_debounce(&mut state, 1000, &events, 10000, &mut next_tick);
    assert_eq!(runs, vec![4, 9, 14, 19, 24, 29, 34, 39, 44, 49]);
}

#[test]
fn update_then_tick_runs_latest_param() {
    let mut s: DebounceState<&str> = DebounceState::new();
    assert_eq!(s.debounce_tick(), None);
    s.update_param("a");
    s.update_param("b");
    assert_eq!(s.pending_jobs(), 2);
    assert_eq!(s.debounce_tick(), Some("b"));
    assert_eq!(s.pending_jobs(), 0);
    // consumed: nothing more to run
    assert_eq!(s.debounce_tick(), None);
}

#[test]
fn delay_once_skips_exactly_one_period() {
    let mut s: DebounceState<u8> = DebounceState::new();
    s.delay_once();
    s.update_param(1);
    assert!(s.skips_next());
    assert_eq!(s.debounce_tick(), None);
    assert!(!s.skips_next());
    assert_eq!(s.pending_jobs(), 1);
    assert_eq!(s.debounce_tick(), Some(1));
}

#[test]
fn delay_once_with_nothing_pending() {
    let mut s: DebounceState<u8> = DebounceState::new();
    s.delay_once();
    assert_eq!(s.debounce_tick(), None);
    assert_eq!(s.debounce_tick(), None);
}

#[test]
fn request_counter_counts_requests() {
    let mut s: DebounceState<u8> = DebounceState::new();
    s.update_param(3);
    s.update_param(4);
    assert_eq!(s.pending_jobs(), 2);
    s.delay_once();
    assert_eq!(s.debounce_tick(), None);
    assert_eq!(s.pending_jobs(), 2);
}
