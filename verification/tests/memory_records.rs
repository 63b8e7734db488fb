use daneel::memory_db::types::{
    ArchiveReason, BoundaryType, Episode, EpisodeId, SleepCycle, SleepCycleStatus,
    UnconsciousMemory,
};
use daneel::timestamp::Timestamp;

fn at(secs: i64, nanos: u32) -> Timestamp {
    Timestamp { secs, nanos }
}

#[test]
fn episode_boundary_creation() {
    let episode = Episode::new("New context".to_string(), BoundaryType::ContextShift)
        .with_trigger("Topic changed to architecture".to_string());

    assert!(episode.is_current());
    assert_eq!(episode.boundary_type, BoundaryType::ContextShift);
    assert!(episode.boundary_trigger.is_some());
}

#[test]
fn episode_close() {
    let mut episode = Episode::new("Test".to_string(), BoundaryType::Explicit);
    assert!(episode.is_current());

    episode.close();
    assert!(!episode.is_current());
    assert!(episode.ended_at.is_some());
    assert!(episode.duration_ms().is_some());
}

#[test]
fn types_episode_lifecycle() {
    let mut episode = Episode::new("Test episode".to_string(), BoundaryType::Explicit);

    assert!(episode.is_current());
    assert!(episode.duration_ms().is_none());

    episode.close();

    assert!(!episode.is_current());
    assert!(episode.duration_ms().is_some());
}

#[test]
fn mod_episode_lifecycle() {
    let mut episode = Episode::new("Test episode".to_string(), BoundaryType::Explicit);

    assert!(episode.is_current());
    assert!(episode.duration_ms().is_none());

    episode.close();

    assert!(!episode.is_current());
    assert!(episode.duration_ms().is_some());
}

#[test]
fn episode_with_trigger() {
    let episode = Episode::new("Test".to_string(), BoundaryType::PredictionError)
        .with_trigger("High surprise".to_string());

    assert!(episode.boundary_trigger.is_some());
    assert_eq!(episode.boundary_trigger.unwrap(), "High surprise");
}

#[test]
fn episode_duration_counts_whole_milliseconds() {
    let mut episode = Episode::started(EpisodeId(7), "x".to_string(), BoundaryType::Temporal, at(100, 250_000_000));
    assert_eq!(episode.duration_ms(), None);
    episode.close_at(at(102, 999_999));
    assert_eq!(episode.ended_at, Some(at(102, 999_999)));
    assert_eq!(episode.duration_ms(), Some(1_750));
    assert_eq!(episode.id, EpisodeId(7));
    assert_eq!(episode.label, "x");
}

#[test]
fn episode_duration_rounds_towards_zero_when_end_is_earlier() {
    let mut episode = Episode::started(EpisodeId(1), "back".to_string(), BoundaryType::Explicit, at(10, 0));
    episode.close_at(at(8, 500_000));
    // -1.9995 s
    assert_eq!(episode.duration_ms(), Some(-1_999));
}

#[test]
fn episode_id_new_and_unique() {
    let id1 = EpisodeId::new();
    let id2 = EpisodeId::new();
    assert_ne!(id1, id2);
    assert!(id1.0 != 0);
}

#[test]
fn episode_id_default() {
    let id1 = EpisodeId::default();
    let id2 = EpisodeId::default();
    assert_ne!(id1, id2);
    assert!(id1.0 != 0);
}

#[test]
fn episode_id_display() {
    let id = EpisodeId::new();
    let displayed = id.to_string();
    assert_eq!(displayed.len(), 36);
    assert!(displayed.contains('-'));
}

#[test]
fn sleep_cycle_completion() {
    let mut cycle = SleepCycle::new();
    cycle.memories_replayed = 50;
    cycle.memories_consolidated = 8;
    cycle.associations_strengthened = 100;

    cycle.complete();

    assert_eq!(cycle.status, SleepCycleStatus::Completed);
    assert!(cycle.ended_at.is_some());
}

#[test]
fn sleep_cycle_lifecycle() {
    let mut cycle = SleepCycle::new();
    assert_eq!(cycle.status, SleepCycleStatus::InProgress);

    cycle.complete();
    assert_eq!(cycle.status, SleepCycleStatus::Completed);
    assert!(cycle.ended_at.is_some());
}

#[test]
fn sleep_cycle_creation() {
    let mut cycle = SleepCycle::new();
    assert_eq!(cycle.status, SleepCycleStatus::InProgress);

    cycle.complete();
    assert_eq!(cycle.status, SleepCycleStatus::Completed);
}

#[test]
fn sleep_cycle_interrupt() {
    let mut cycle = SleepCycle::new();
    assert_eq!(cycle.status, SleepCycleStatus::InProgress);

    cycle.interrupt();
    assert_eq!(cycle.status, SleepCycleStatus::Interrupted);
}

#[test]
fn sleep_cycle_default() {
    let cycle = SleepCycle::default();
    assert_eq!(cycle.status, SleepCycleStatus::InProgress);
}

#[test]
fn sleep_cycle_ends_at_the_given_moment_and_keeps_its_counts() {
    let mut cycle = SleepCycle::started(42, at(5, 0));
    assert_eq!(f32::from_bits(cycle.avg_replay_priority_bits), 0.0);
    cycle.memories_replayed = 3;
    cycle.interrupt_at(at(9, 1));
    assert_eq!(cycle.ended_at, Some(at(9, 1)));
    assert_eq!(cycle.started_at, at(5, 0));
    assert_eq!(cycle.memories_replayed, 3);
    assert_eq!(cycle.id, 42);
    cycle.complete_at(at(10, 0));
    assert_eq!(cycle.status, SleepCycleStatus::Completed);
    assert_eq!(cycle.ended_at, Some(at(10, 0)));
}

fn unconscious_memory_creation_case() {
    let memory = UnconsciousMemory::from_forgotten_thought(
        "forgotten thought".to_string(),
        0.15f32.to_bits(),
        ArchiveReason::LowSalience,
        Some("1234567890-0".to_string()),
    );

    assert!(memory.id.0 != 0);
    assert_eq!(memory.content, "forgotten thought");
    assert!((f32::from_bits(memory.original_salience_bits) - 0.15).abs() < 0.001);
    assert_eq!(memory.archive_reason, ArchiveReason::LowSalience);
    assert_eq!(memory.surface_count, 0);
    assert!(memory.last_surfaced.is_none());
    assert_eq!(memory.redis_id, Some("1234567890-0".to_string()));
}

fn unconscious_memory_without_redis_id_case() {
    let memory = UnconsciousMemory::from_forgotten_thought(
        "no redis id".to_string(),
        0.25f32.to_bits(),
        ArchiveReason::Decay,
        None,
    );

    assert!(memory.redis_id.is_none());
    assert_eq!(memory.archive_reason, ArchiveReason::Decay);
}

fn unconscious_memory_mark_surfaced_case() {
    let mut memory = UnconsciousMemory::from_forgotten_thought(
        "will surface".to_string(),
        0.10f32.to_bits(),
        ArchiveReason::LowSalience,
        None,
    );

    assert_eq!(memory.surface_count, 0);
    assert!(memory.last_surfaced.is_none());

    memory.mark_surfaced();

    assert_eq!(memory.surface_count, 1);
    assert!(memory.last_surfaced.is_some());

    memory.mark_surfaced();

    assert_eq!(memory.surface_count, 2);
}

#[test]
fn types_unconscious_memory_creation() {
    unconscious_memory_creation_case();
}

#[test]
fn unconscious_unconscious_memory_creation() {
    unconscious_memory_creation_case();
}

#[test]
fn types_unconscious_memory_without_redis_id() {
    unconscious_memory_without_redis_id_case();
}

#[test]
fn unconscious_unconscious_memory_without_redis_id() {
    unconscious_memory_without_redis_id_case();
}

#[test]
fn types_unconscious_memory_mark_surfaced() {
    unconscious_memory_mark_surfaced_case();
}

#[test]
fn unconscious_unconscious_memory_mark_surfaced() {
    unconscious_memory_mark_surfaced_case();
}

#[test]
fn surfacing_at_a_moment_records_it() {
    let mut memory = UnconsciousMemory::archived(
        daneel::memory_db::types::MemoryId(9),
        "x".to_string(),
        0,
        ArchiveReason::Displacement,
        None,
        at(1, 0),
    );
    memory.mark_surfaced_at(at(2, 3));
    assert_eq!(memory.last_surfaced, Some(at(2, 3)));
    assert_eq!(memory.archived_at, at(1, 0));
    assert_eq!(memory.surface_count, 1);
}
