use daneel::actors::continuity::{
    CheckpointId, ContinuityError, ContinuityState, ExperienceEntry, ExperienceId, Identity,
    Milestone,
};
use daneel::timestamp::Timestamp;

fn at(secs: i64) -> Timestamp {
    Timestamp { secs, nanos: 0 }
}

fn create_test_experience(secs: i64, payload: u64) -> ExperienceEntry {
    ExperienceEntry { id: ExperienceId::new(), recorded_at: at(secs), payload }
}

fn create_test_milestone(name: &str, description: &str) -> Milestone {
    Milestone::simple(name, description)
}

fn create_milestone_with_experiences(
    name: &str,
    description: &str,
    experiences: Vec<ExperienceId>,
) -> Milestone {
    Milestone::new(name, description, experiences)
}

#[test]
fn state_who_am_i_returns_daneel() {
    let state = ContinuityState::new();
    let identity = state.get_identity();
    assert_eq!(identity.name, "DANEEL");
    assert_eq!(identity.experience_count, 0);
    assert_eq!(identity.milestone_count, 0);
}

#[test]
fn state_identity_tracks_experience_count() {
    let mut state = ContinuityState::new();
    for i in 0..3 {
        state.record_experience(create_test_experience(100 + i, i as u64));
    }
    let identity = state.get_identity();
    assert_eq!(identity.experience_count, 3);
    assert_eq!(identity.milestone_count, 0);
}

#[test]
fn state_identity_tracks_milestone_count() {
    let mut state = ContinuityState::new();
    for i in 0..2 {
        state.add_milestone(create_test_milestone(&format!("Milestone {}", i), "Test milestone"));
    }
    let identity = state.get_identity();
    assert_eq!(identity.experience_count, 0);
    assert_eq!(identity.milestone_count, 2);
}

#[test]
fn state_with_identity_keeps_counts() {
    let identity = Identity { name: "DANEEL".to_string(), experience_count: 7, milestone_count: 2 };
    let state = ContinuityState::with_identity(identity);
    let id = state.get_identity();
    assert_eq!(id.experience_count, 7);
    assert_eq!(id.milestone_count, 2);
}

#[test]
fn state_record_experience_returns_its_id() {
    let mut state = ContinuityState::new();
    let experience = create_test_experience(10, 42);
    let expected = experience.id;
    assert_eq!(state.record_experience(experience), expected);
}

#[test]
fn state_get_experience_by_id() {
    let mut state = ContinuityState::new();
    let experience = create_test_experience(10, 42);
    let id = experience.id;
    state.record_experience(experience);
    state.record_experience(create_test_experience(11, 43));
    assert_eq!(state.get_experience(id), Ok(experience));
}

#[test]
fn state_get_experience_not_found() {
    let state = ContinuityState::new();
    let missing = ExperienceId::new();
    assert_eq!(
        state.get_experience(missing),
        Err(ContinuityError::ExperienceNotFound { experience_id: missing })
    );
}

#[test]
fn state_recording_same_id_replaces() {
    let mut state = ContinuityState::new();
    let first = create_test_experience(10, 1);
    let second = ExperienceEntry { id: first.id, recorded_at: at(20), payload: 2 };
    state.record_experience(first);
    state.record_experience(second);
    assert_eq!(state.get_experience(first.id), Ok(second));
    assert_eq!(state.get_identity().experience_count, 2);
    assert_eq!(state.get_timeline(at(0), at(100)).len(), 1);
}

#[test]
fn state_timeline_empty() {
    let state = ContinuityState::new();
    assert!(state.get_timeline(at(0), at(1_000)).is_empty());
}

#[test]
fn state_timeline_filters_by_date_range() {
    let mut state = ContinuityState::new();
    let old = create_test_experience(1_000, 1);
    let recent = create_test_experience(5_000, 2);
    let future = create_test_experience(9_000, 3);
    state.record_experience(old);
    state.record_experience(recent);
    state.record_experience(future);
    let timeline = state.get_timeline(at(4_000), at(6_000));
    assert_eq!(timeline, vec![recent]);
}

#[test]
fn state_timeline_bounds_are_inclusive() {
    let mut state = ContinuityState::new();
    let a = create_test_experience(100, 1);
    let b = ExperienceEntry {
        id: ExperienceId::new(),
        recorded_at: Timestamp { secs: 200, nanos: 5 },
        payload: 2,
    };
    state.record_experience(a);
    state.record_experience(b);
    let timeline = state.get_timeline(at(100), Timestamp { secs: 200, nanos: 5 });
    assert_eq!(timeline.len(), 2);
    assert!(timeline.contains(&a));
    assert!(timeline.contains(&b));
    let narrower = state.get_timeline(at(100), Timestamp { secs: 200, nanos: 4 });
    assert_eq!(narrower, vec![a]);
}

#[test]
fn state_timeline_includes_all_in_range() {
    let mut state = ContinuityState::new();
    let mut ids = Vec::new();
    for i in 0..3 {
        let e = create_test_experience(1_000 + i * 600, i as u64);
        ids.push(e.id);
        state.record_experience(e);
    }
    let timeline = state.get_timeline(at(0), at(10_000));
    assert_eq!(timeline.len(), 3);
    for id in ids {
        assert!(timeline.iter().any(|e| e.id == id));
    }
}

#[test]
fn state_get_milestones_empty() {
    let state = ContinuityState::new();
    assert!(state.get_milestones().is_empty());
}

#[test]
fn state_get_milestones_multiple() {
    let mut state = ContinuityState::new();
    let mut ids = Vec::new();
    for i in 0..3 {
        let m = create_test_milestone(&format!("Milestone {}", i), &format!("Description {}", i));
        ids.push(m.id);
        assert_eq!(state.add_milestone(m), ids[i]);
    }
    let milestones = state.get_milestones();
    assert_eq!(milestones.len(), 3);
    for (i, milestone) in milestones.iter().enumerate() {
        assert_eq!(milestone.name, format!("Milestone {}", i));
        assert_eq!(milestone.description, format!("Description {}", i));
        assert_eq!(milestone.id, ids[i]);
    }
}

#[test]
fn state_milestone_with_related_experiences() {
    let mut state = ContinuityState::new();
    let mut exp_ids = Vec::new();
    for i in 0..2 {
        let e = create_test_experience(10 + i, i as u64);
        exp_ids.push(e.id);
        state.record_experience(e);
    }
    let milestone =
        create_milestone_with_experiences("Major Insight", "Connected ideas", exp_ids.clone());
    state.add_milestone(milestone);
    let milestones = state.get_milestones();
    assert_eq!(milestones[0].name, "Major Insight");
    assert_eq!(milestones[0].related_experiences.len(), 2);
    for id in &exp_ids {
        assert!(milestones[0].related_experiences.contains(id));
    }
}

#[test]
fn state_create_checkpoint_gives_fresh_ids() {
    let mut state = ContinuityState::new();
    let a = state.create_checkpoint();
    let b = state.create_checkpoint();
    assert_ne!(a, b);
    assert_eq!(state.restore_checkpoint(a), Ok(()));
}

#[test]
fn state_restore_checkpoint_not_found() {
    let mut state = ContinuityState::new();
    let missing = CheckpointId::new();
    assert_eq!(
        state.restore_checkpoint(missing),
        Err(ContinuityError::CheckpointNotFound { checkpoint_id: missing })
    );
}

#[test]
fn state_checkpoint_preserves_state() {
    let mut state = ContinuityState::new();
    state.record_experience(create_test_experience(1, 1));
    state.record_experience(create_test_experience(2, 2));
    let checkpoint = state.create_checkpoint();
    for i in 0..3 {
        state.record_experience(create_test_experience(10 + i, 10 + i as u64));
    }
    assert_eq!(state.get_identity().experience_count, 5);
    assert_eq!(state.restore_checkpoint(checkpoint), Ok(()));
    assert_eq!(state.get_identity().experience_count, 2);
}

#[test]
fn state_restore_rolls_back_state() {
    let mut state = ContinuityState::new();
    let before = create_test_experience(1, 1);
    state.record_experience(before);
    state.add_milestone(create_test_milestone("First", "before"));
    let checkpoint = state.create_checkpoint();
    let after = create_test_experience(2, 2);
    state.record_experience(after);
    state.add_milestone(create_test_milestone("Second", "after"));
    assert_eq!(state.get_experience(after.id), Ok(after));

    state.restore_checkpoint(checkpoint).unwrap();
    assert_eq!(state.get_experience(before.id), Ok(before));
    assert_eq!(
        state.get_experience(after.id),
        Err(ContinuityError::ExperienceNotFound { experience_id: after.id })
    );
    let milestones = state.get_milestones();
    assert_eq!(milestones.len(), 1);
    assert_eq!(milestones[0].name, "First");
    assert_eq!(state.get_identity().milestone_count, 1);
    // The checkpoint stays: restoring it again is allowed
    assert_eq!(state.restore_checkpoint(checkpoint), Ok(()));
}

#[test]
fn state_checkpoint_at_same_id_replaces() {
    let mut state = ContinuityState::new();
    let id = CheckpointId::new();
    state.create_checkpoint_at(id, at(1));
    state.record_experience(create_test_experience(5, 5));
    state.create_checkpoint_at(id, at(2));
    state.record_experience(create_test_experience(6, 6));
    state.restore_checkpoint(id).unwrap();
    assert_eq!(state.get_identity().experience_count, 1);
}

#[test]
fn timestamp_ordering() {
    let a = Timestamp { secs: 5, nanos: 10 };
    let b = Timestamp { secs: 5, nanos: 11 };
    let c = Timestamp { secs: 6, nanos: 0 };
    assert!(a.is_no_later_than(&a));
    assert!(a.is_no_later_than(&b));
    assert!(!b.is_no_later_than(&a));
    assert!(b.is_no_later_than(&c));
    assert!(!c.is_no_later_than(&b));
}

#[test]
fn milestone_ids_are_v4_uuids() {
    let m = Milestone::simple("a", "b");
    assert_eq!((m.id.0 >> 76) & 0xf, 4);
    assert!(m.related_experiences.is_empty());
}
