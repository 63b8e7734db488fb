use daneel::memory_db::types::{
    ArchiveReason, AssociationType, BoundaryType, SleepCycleStatus, IDENTITY_RECORD_ID,
    VECTOR_DIMENSION,
};

#[test]
fn types_archive_reason_variants() {
    assert_eq!(ArchiveReason::LowSalience, ArchiveReason::LowSalience);
    assert_ne!(ArchiveReason::LowSalience, ArchiveReason::Decay);
    assert_ne!(ArchiveReason::Decay, ArchiveReason::Displacement);
}

#[test]
fn unconscious_archive_reason_variants() {
    assert_eq!(ArchiveReason::LowSalience, ArchiveReason::LowSalience);
    assert_ne!(ArchiveReason::LowSalience, ArchiveReason::Decay);
    assert_ne!(ArchiveReason::Decay, ArchiveReason::Displacement);
}

#[test]
fn vector_dimension_constant() {
    assert_eq!(VECTOR_DIMENSION, 768);
}

// Additional cases


#[test]
fn enum_variants_distinct() {
    assert_ne!(AssociationType::Semantic, AssociationType::Goal);
    assert_ne!(BoundaryType::Explicit, BoundaryType::ContextShift);
    assert_ne!(SleepCycleStatus::Completed, SleepCycleStatus::Interrupted);
}

// Identity metadata and memory IDs

use daneel::memory_db::types::{IdentityMetadata, MemoryId};
use daneel::timestamp::Timestamp;

#[test]
fn identity_record_id_constant() {
    assert_eq!(IDENTITY_RECORD_ID, "00000000-0000-0000-0000-000000000001");
    assert_eq!(IDENTITY_RECORD_ID.len(), 36);
}

#[test]
fn identity_metadata_cumulative_fields_initialize_to_zero() {
    let identity = IdentityMetadata::new();
    assert_eq!(identity.cumulative_dream_strengthened, 0);
    assert_eq!(identity.cumulative_dream_candidates, 0);
}

#[test]
fn identity_metadata_default_cumulative_fields_zero() {
    let identity = IdentityMetadata::default();
    assert_eq!(identity.cumulative_dream_strengthened, 0);
    assert_eq!(identity.cumulative_dream_candidates, 0);
}

#[test]
fn identity_metadata_record_dream_updates_cumulative() {
    let mut identity = IdentityMetadata::new();
    identity.record_dream(10, 50);
    assert_eq!(identity.cumulative_dream_strengthened, 10);
    assert_eq!(identity.cumulative_dream_candidates, 50);
    assert_eq!(identity.lifetime_dream_count, 1);
    identity.record_dream(15, 30);
    assert_eq!(identity.cumulative_dream_strengthened, 25);
    assert_eq!(identity.cumulative_dream_candidates, 80);
    assert_eq!(identity.lifetime_dream_count, 2);
}

#[test]
fn identity_metadata_record_dream_zero_values() {
    let mut identity = IdentityMetadata::new();
    identity.record_dream(0, 0);
    assert_eq!(identity.cumulative_dream_strengthened, 0);
    assert_eq!(identity.cumulative_dream_candidates, 0);
    assert_eq!(identity.lifetime_dream_count, 1);
}

#[test]
fn identity_metadata_cumulative_persists_across_dreams() {
    let mut identity = IdentityMetadata::new();
    for i in 0..5 {
        identity.record_dream(10 + i, 100);
    }
    assert_eq!(identity.cumulative_dream_strengthened, 60);
    assert_eq!(identity.cumulative_dream_candidates, 500);
    assert_eq!(identity.lifetime_dream_count, 5);
}

#[test]
fn identity_metadata_cumulative_efficiency_calculation() {
    let mut identity = IdentityMetadata::new();
    identity.record_dream(50, 100);
    identity.record_dream(30, 100);
    identity.record_dream(20, 100);
    let efficiency = (identity.cumulative_dream_strengthened as f64
        / identity.cumulative_dream_candidates as f64)
        * 100.0;
    assert!((efficiency - 33.333_333).abs() < 0.1);
}

#[test]
fn identity_record_thought() {
    let mut identity = IdentityMetadata::new();
    assert_eq!(identity.lifetime_thought_count, 0);
    identity.record_thought();
    assert_eq!(identity.lifetime_thought_count, 1);
}

#[test]
fn identity_record_restart() {
    let identity = IdentityMetadata::new();
    assert_eq!(identity.restart_count, 0);
}

#[test]
fn identity_new_times_agree() {
    let identity = IdentityMetadata::new();
    assert_eq!(identity.first_thought_at, identity.last_thought_at);
    assert_eq!(identity.first_thought_at, identity.session_started_at);
    assert!(identity.last_dream_at.is_none());
    assert_eq!(identity.id, IDENTITY_RECORD_ID);
}

#[test]
fn identity_events_at_given_times() {
    let born = Timestamp { secs: 1_000, nanos: 0 };
    let mut identity = IdentityMetadata::born_at(born);
    let later = Timestamp { secs: 2_000, nanos: 5 };
    identity.record_thought_at(later);
    identity.record_restart_at(later);
    identity.record_dream_at(later, 3, 9);
    assert_eq!(identity.first_thought_at, born);
    assert_eq!(identity.last_thought_at, later);
    assert_eq!(identity.session_started_at, later);
    assert_eq!(identity.last_dream_at, Some(later));
    assert_eq!(identity.restart_count, 1);
    assert_eq!(identity.last_dream_strengthened, 3);
    assert_eq!(identity.lifetime_thought_count, 1);
}

#[test]
fn types_memory_id_is_unique() {
    let id1 = MemoryId::new();
    let id2 = MemoryId::new();
    assert_ne!(id1, id2);
}

#[test]
fn mod_memory_id_is_unique() {
    let id1 = MemoryId::new();
    let id2 = MemoryId::new();
    assert_ne!(id1, id2);
}

#[test]
fn memory_id_default() {
    let id1 = MemoryId::default();
    let id2 = MemoryId::default();
    assert_ne!(id1, id2);
    assert_ne!(id1.0, 0);
}

#[test]
fn memory_id_display() {
    let id = MemoryId::new();
    let displayed = id.to_string();
    assert_eq!(displayed.len(), 36);
    assert!(displayed.contains('-'));
}
