use debounce_fltk::throttle_gate::{throttle_check, ThrottleGate};

const MS: u64 = 1_000_000;

#[test]
fn first_check_passes_then_blocks_within_limit() {
    let mut gate = ThrottleGate::new();
    assert_eq!(gate.last_pass(7), None);
    assert!(throttle_check(&mut gate, 7, 300 * MS, 1_000 * MS));
    assert_eq!(gate.last_pass(7), Some(1_000 * MS));
    assert!(!throttle_check(&mut gate, 7, 300 * MS, 1_100 * MS));
    // a refusal does not move the start
    assert_eq!(gate.last_pass(7), Some(1_000 * MS));
    assert!(!throttle_check(&mut gate, 7, 300 * MS, 1_299 * MS));
    assert!(throttle_check(&mut gate, 7, 300 * MS, 1_300 * MS));
    assert_eq!(gate.last_pass(7), Some(1_300 * MS));
}

#[test]
fn task_ids_are_independent() {
    let mut gate = ThrottleGate::new();
    assert!(throttle_check(&mut gate, 1, 300 * MS, 0));
    assert!(throttle_check(&mut gate, 2, 300 * MS, 10 * MS));
    assert!(!throttle_check(&mut gate, 1, 300 * MS, 20 * MS));
    assert!(!throttle_check(&mut gate, 2, 300 * MS, 20 * MS));
    assert_eq!(gate.last_pass(1), Some(0));
    assert_eq!(gate.last_pass(2), Some(10 * MS));
}

#[test]
fn clock_reading_before_last_pass_counts_as_no_time() {
    let mut gate = ThrottleGate::new();
    assert!(throttle_check(&mut gate, -5, 1, 500));
    assert!(!throttle_check(&mut gate, -5, 1, 400));
    // a zero limit never blocks
    assert!(throttle_check(&mut gate, -5, 0, 400));
}
