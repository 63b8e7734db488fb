use daneel::cognition::cognitive_loop::{should_cycle, time_until_next_cycle};
use std::time::Duration;

#[test]
fn cognitive_loop_should_cycle_respects_timing() {
    // A very long cycle time: no cycle right after the last one
    assert!(!should_cycle(Duration::from_micros(50), Duration::from_millis(10000)));
}

#[test]
fn mod_should_cycle_respects_timing() {
    assert!(!should_cycle(Duration::ZERO, Duration::from_millis(10000)));
}

#[test]
fn cognitive_loop_time_until_next_cycle_calculates_correctly() {
    let wait = time_until_next_cycle(Duration::from_micros(300), Duration::from_millis(100));
    assert!(wait > Duration::from_millis(90));
    assert!(wait <= Duration::from_millis(100));
    assert_eq!(wait, Duration::from_micros(99_700));
}

#[test]
fn mod_time_until_next_cycle_calculates_correctly() {
    let wait = time_until_next_cycle(Duration::ZERO, Duration::from_millis(100));
    assert_eq!(wait, Duration::from_millis(100));
}

#[test]
fn time_until_next_cycle_returns_zero_when_behind_schedule() {
    let wait = time_until_next_cycle(Duration::from_millis(100), Duration::from_millis(1));
    assert_eq!(wait, Duration::ZERO);
}

#[test]
fn should_cycle_returns_true_when_time_elapsed() {
    assert!(should_cycle(Duration::from_millis(100), Duration::from_millis(1)));
}

#[test]
fn due_exactly_at_target() {
    let target = Duration::from_millis(50);
    assert!(should_cycle(target, target));
    assert_eq!(time_until_next_cycle(target, target), Duration::ZERO);
    assert!(!should_cycle(target - Duration::from_nanos(1), target));
    assert_eq!(time_until_next_cycle(target - Duration::from_nanos(1), target), Duration::from_nanos(1));
}
