use daneel::actors::sleep::{SleepCycleStatus, SleepError, SleepResult, SleepState};

#[test]
fn sleep_state_display() {
    assert_eq!(SleepState::Awake.to_string(), "awake");
    assert_eq!(SleepState::EnteringSleep.to_string(), "entering_sleep");
    assert_eq!(SleepState::LightSleep.to_string(), "light_sleep");
    assert_eq!(SleepState::DeepSleep.to_string(), "deep_sleep");
    assert_eq!(SleepState::Dreaming.to_string(), "dreaming");
    assert_eq!(SleepState::Waking.to_string(), "waking");
}

#[test]
fn sleep_cycle_status_variants() {
    assert_eq!(SleepCycleStatus::InProgress, SleepCycleStatus::InProgress);
    assert_eq!(SleepCycleStatus::Completed, SleepCycleStatus::Completed);
    assert_eq!(SleepCycleStatus::Interrupted, SleepCycleStatus::Interrupted);
}

#[test]
fn sleep_result_variants() {
    let started = SleepResult::Started;
    let already = SleepResult::AlreadySleeping;
    let not_met = SleepResult::ConditionsNotMet {
        reason: "test".to_string(),
    };
    let error = SleepResult::Error {
        message: "test error".to_string(),
    };

    assert!(format!("{started:?}").contains("Started"));
    assert!(format!("{already:?}").contains("AlreadySleeping"));
    assert!(format!("{not_met:?}").contains("ConditionsNotMet"));
    assert!(format!("{error:?}").contains("Error"));
}

#[test]
fn sleep_error_display() {
    let mem_err = SleepError::MemoryDb("db failed".to_string());
    let stream_err = SleepError::Stream("stream failed".to_string());
    let interrupted = SleepError::Interrupted;
    let config_err = SleepError::Config("bad config".to_string());

    assert!(mem_err.to_string().contains("Memory database error"));
    assert!(stream_err.to_string().contains("Stream error"));
    assert!(interrupted.to_string().contains("Interrupted"));
    assert!(config_err.to_string().contains("Configuration error"));
}

// Additional cases

#[test]
fn sleep_error_messages_exact() {
    assert_eq!(
        SleepError::MemoryDb("db failed".to_string()).to_string(),
        "Memory database error: db failed"
    );
    assert_eq!(
        SleepError::Config("x".to_string()).to_string(),
        "Configuration error: x"
    );
    assert_eq!(
        SleepError::Interrupted.to_string(),
        "Interrupted by external stimulus"
    );
}

#[test]
fn sleep_state_default_is_awake() {
    assert_eq!(SleepState::default(), SleepState::Awake);
}

#[test]
fn sleep_result_clone_keeps_reason() {
    let r = SleepResult::ConditionsNotMet {
        reason: "queue too small".to_string(),
    };
    match r.clone() {
        SleepResult::ConditionsNotMet { reason } => assert_eq!(reason, "queue too small"),
        _ => panic!("wrong variant"),
    }
}

// Sleep summary totals

use daneel::actors::sleep::{CycleCounts, SleepTotals};

fn counts(duration_ms: u64, replayed: usize, consolidated: usize) -> CycleCounts {
    CycleCounts {
        duration_ms,
        memories_replayed: replayed,
        memories_consolidated: consolidated,
        associations_strengthened: replayed / 2,
        associations_pruned: 1,
    }
}

#[test]
fn sleep_totals_start_at_zero() {
    let t = SleepTotals::new();
    assert_eq!(t.cycles_completed, 0);
    assert_eq!(t.total_duration_ms, 0);
    assert_eq!(t.total_memories_replayed, 0);
}

#[test]
fn sleep_totals_accumulate_cycles() {
    let mut t = SleepTotals::new();
    t.add_cycle(&counts(5000, 50, 40));
    t.add_cycle(&counts(3000, 30, 20));
    assert_eq!(t.total_duration_ms, 8000);
    assert_eq!(t.cycles_completed, 2);
    assert_eq!(t.total_memories_replayed, 80);
    assert_eq!(t.total_memories_consolidated, 60);
    assert_eq!(t.total_associations_strengthened, 40);
    assert_eq!(t.total_associations_pruned, 2);
}

#[test]
fn sleep_totals_order_does_not_matter() {
    let mut a = SleepTotals::new();
    a.add_cycle(&counts(1, 2, 3));
    a.add_cycle(&counts(10, 20, 30));
    let mut b = SleepTotals::new();
    b.add_cycle(&counts(10, 20, 30));
    b.add_cycle(&counts(1, 2, 3));
    assert_eq!(a, b);
}
