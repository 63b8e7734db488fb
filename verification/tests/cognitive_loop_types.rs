use daneel::cognition::cognitive_loop::{CognitiveStage, LoopState, StageDurations};
use std::time::Duration;

#[test]
fn types_stage_durations_helper_methods() {
    let durations = StageDurations {
        trigger: Duration::from_millis(1),
        autoflow: Duration::from_millis(2),
        attention: Duration::from_millis(3),
        assembly: Duration::from_millis(4),
        anchor: Duration::from_millis(5),
    };

    // Test total
    assert_eq!(durations.total(), Duration::from_millis(15));

    // Test zero
    let zero = StageDurations::zero();
    assert_eq!(zero.total(), Duration::ZERO);

    // Test add
    let doubled = durations.add(&durations);
    assert_eq!(doubled.trigger, Duration::from_millis(2));
    assert_eq!(doubled.total(), Duration::from_millis(30));

    // Test div
    let halved = doubled.div(2);
    assert_eq!(halved.trigger, Duration::from_millis(1));
    assert_eq!(halved.total(), Duration::from_millis(15));

    // Test div by zero
    let zero_div = durations.div(0);
    assert_eq!(zero_div.total(), Duration::ZERO);
}

#[test]
fn cognitive_loop_stage_durations_helper_methods() {
    let durations = StageDurations {
        trigger: Duration::from_millis(1),
        autoflow: Duration::from_millis(2),
        attention: Duration::from_millis(3),
        assembly: Duration::from_millis(4),
        anchor: Duration::from_millis(5),
    };

    assert_eq!(durations.total(), Duration::from_millis(15));

    let zero = StageDurations::zero();
    assert_eq!(zero.total(), Duration::ZERO);

    let doubled = durations.add(&durations);
    assert_eq!(doubled.trigger, Duration::from_millis(2));
    assert_eq!(doubled.total(), Duration::from_millis(30));

    let halved = doubled.div(2);
    assert_eq!(halved.trigger, Duration::from_millis(1));
    assert_eq!(halved.total(), Duration::from_millis(15));

    let zero_div = durations.div(0);
    assert_eq!(zero_div.total(), Duration::ZERO);
}

#[test]
fn cognitive_stage_enum_variants() {
    let trigger = CognitiveStage::Trigger;
    let autoflow = CognitiveStage::Autoflow;
    let attention = CognitiveStage::Attention;
    let assembly = CognitiveStage::Assembly;
    let anchor = CognitiveStage::Anchor;

    assert!(format!("{trigger:?}").contains("Trigger"));
    assert!(format!("{autoflow:?}").contains("Autoflow"));
    assert!(format!("{attention:?}").contains("Attention"));
    assert!(format!("{assembly:?}").contains("Assembly"));
    assert!(format!("{anchor:?}").contains("Anchor"));

    let trigger_clone = trigger;
    assert_eq!(trigger_clone, CognitiveStage::Trigger);

    let trigger_copy = trigger;
    assert_eq!(trigger_copy, CognitiveStage::Trigger);

    assert_eq!(trigger, CognitiveStage::Trigger);
    assert_ne!(trigger, autoflow);
}

#[test]
fn loop_state_enum_variants() {
    let running = LoopState::Running;
    let paused = LoopState::Paused;
    let stopped = LoopState::Stopped;

    assert!(format!("{running:?}").contains("Running"));
    assert!(format!("{paused:?}").contains("Paused"));
    assert!(format!("{stopped:?}").contains("Stopped"));

    let running_clone = running;
    assert_eq!(running_clone, LoopState::Running);

    let running_copy = running;
    assert_eq!(running_copy, LoopState::Running);

    assert_eq!(running, LoopState::Running);
    assert_ne!(running, paused);
}

#[test]
fn stage_durations_default_is_zero() {
    let durations = StageDurations::default();
    assert_eq!(durations.trigger, Duration::ZERO);
    assert_eq!(durations.autoflow, Duration::ZERO);
    assert_eq!(durations.attention, Duration::ZERO);
    assert_eq!(durations.assembly, Duration::ZERO);
    assert_eq!(durations.anchor, Duration::ZERO);
    assert_eq!(durations.total(), Duration::ZERO);
}

#[test]
fn stage_durations_div_by_large_number() {
    let durations = StageDurations {
        trigger: Duration::from_secs(100),
        autoflow: Duration::from_secs(200),
        attention: Duration::from_secs(300),
        assembly: Duration::from_secs(400),
        anchor: Duration::from_secs(500),
    };

    let result = durations.div(100);

    assert_eq!(result.trigger, Duration::from_secs(1));
    assert_eq!(result.autoflow, Duration::from_secs(2));
    assert_eq!(result.attention, Duration::from_secs(3));
    assert_eq!(result.assembly, Duration::from_secs(4));
    assert_eq!(result.anchor, Duration::from_secs(5));
}

#[test]
fn stage_durations_add_commutative() {
    let a = StageDurations {
        trigger: Duration::from_millis(1),
        autoflow: Duration::from_millis(2),
        attention: Duration::from_millis(3),
        assembly: Duration::from_millis(4),
        anchor: Duration::from_millis(5),
    };

    let b = StageDurations {
        trigger: Duration::from_millis(10),
        autoflow: Duration::from_millis(20),
        attention: Duration::from_millis(30),
        assembly: Duration::from_millis(40),
        anchor: Duration::from_millis(50),
    };

    let ab = a.add(&b);
    let ba = b.add(&a);

    assert_eq!(ab.trigger, ba.trigger);
    assert_eq!(ab.autoflow, ba.autoflow);
    assert_eq!(ab.attention, ba.attention);
    assert_eq!(ab.assembly, ba.assembly);
    assert_eq!(ab.anchor, ba.anchor);
}

#[test]
fn stage_durations_clone() {
    let durations = StageDurations {
        trigger: Duration::from_millis(1),
        autoflow: Duration::from_millis(2),
        attention: Duration::from_millis(3),
        assembly: Duration::from_millis(4),
        anchor: Duration::from_millis(5),
    };

    let cloned = durations.clone();

    assert_eq!(cloned.trigger, durations.trigger);
    assert_eq!(cloned.autoflow, durations.autoflow);
    assert_eq!(cloned.attention, durations.attention);
    assert_eq!(cloned.assembly, durations.assembly);
    assert_eq!(cloned.anchor, durations.anchor);
}

#[test]
fn stage_durations_debug_format() {
    let durations = StageDurations::default();

    let debug_str = format!("{durations:?}");

    assert!(debug_str.contains("StageDurations"));
    assert!(debug_str.contains("trigger"));
    assert!(debug_str.contains("autoflow"));
}

#[test]
fn cognitive_stage_copy_trait() {
    let stage = CognitiveStage::Trigger;
    let copied: CognitiveStage = stage;
    assert_eq!(stage, CognitiveStage::Trigger);
    assert_eq!(copied, CognitiveStage::Trigger);
}

#[test]
fn loop_state_copy_trait() {
    let state = LoopState::Running;
    let copied: LoopState = state;
    assert_eq!(state, LoopState::Running);
    assert_eq!(copied, LoopState::Running);
}

#[test]
fn stage_durations_add_with_zero() {
    let durations = StageDurations {
        trigger: Duration::from_millis(10),
        autoflow: Duration::from_millis(20),
        attention: Duration::from_millis(30),
        assembly: Duration::from_millis(40),
        anchor: Duration::from_millis(50),
    };

    let zero = StageDurations::zero();
    let result = durations.add(&zero);

    assert_eq!(result.trigger, durations.trigger);
    assert_eq!(result.autoflow, durations.autoflow);
    assert_eq!(result.attention, durations.attention);
    assert_eq!(result.assembly, durations.assembly);
    assert_eq!(result.anchor, durations.anchor);
}

#[test]
fn stage_durations_zero_total() {
    let zero = StageDurations::zero();
    assert_eq!(zero.total(), Duration::ZERO);
}

#[test]
fn stage_durations_div_result_values() {
    let durations = StageDurations {
        trigger: Duration::from_millis(100),
        autoflow: Duration::from_millis(200),
        attention: Duration::from_millis(300),
        assembly: Duration::from_millis(400),
        anchor: Duration::from_millis(500),
    };

    let result = durations.div(10);

    assert_eq!(result.trigger, Duration::from_millis(10));
    assert_eq!(result.autoflow, Duration::from_millis(20));
    assert_eq!(result.attention, Duration::from_millis(30));
    assert_eq!(result.assembly, Duration::from_millis(40));
    assert_eq!(result.anchor, Duration::from_millis(50));
}

#[test]
fn cognitive_stage_all_variants_eq() {
    assert_eq!(CognitiveStage::Trigger, CognitiveStage::Trigger);
    assert_eq!(CognitiveStage::Autoflow, CognitiveStage::Autoflow);
    assert_eq!(CognitiveStage::Attention, CognitiveStage::Attention);
    assert_eq!(CognitiveStage::Assembly, CognitiveStage::Assembly);
    assert_eq!(CognitiveStage::Anchor, CognitiveStage::Anchor);

    assert_ne!(CognitiveStage::Trigger, CognitiveStage::Autoflow);
    assert_ne!(CognitiveStage::Autoflow, CognitiveStage::Attention);
    assert_ne!(CognitiveStage::Attention, CognitiveStage::Assembly);
    assert_ne!(CognitiveStage::Assembly, CognitiveStage::Anchor);
}

#[test]
fn loop_state_all_variants_eq() {
    assert_eq!(LoopState::Running, LoopState::Running);
    assert_eq!(LoopState::Paused, LoopState::Paused);
    assert_eq!(LoopState::Stopped, LoopState::Stopped);

    assert_ne!(LoopState::Running, LoopState::Paused);
    assert_ne!(LoopState::Paused, LoopState::Stopped);
    assert_ne!(LoopState::Running, LoopState::Stopped);
}

// Additional cases

#[test]
fn div_rounds_down_to_whole_nanoseconds() {
    let d = StageDurations {
        trigger: Duration::new(1, 2),
        autoflow: Duration::from_nanos(7),
        attention: Duration::ZERO,
        assembly: Duration::new(2, 1),
        anchor: Duration::from_nanos(1),
    };
    let r = d.div(3);
    assert_eq!(r.trigger, Duration::from_nanos(333_333_334));
    assert_eq!(r.autoflow, Duration::from_nanos(2));
    assert_eq!(r.assembly, Duration::from_nanos(666_666_667));
    assert_eq!(r.anchor, Duration::ZERO);
}

#[test]
fn div_uses_whole_divisor() {
    let d = StageDurations {
        trigger: Duration::from_nanos(2),
        autoflow: Duration::from_secs(10_000),
        attention: Duration::new(u64::MAX, 999_999_999),
        assembly: Duration::from_nanos(100),
        anchor: Duration::from_nanos(100),
    };
    // A divisor above u32::MAX divides by its whole value
    let r = d.div((1u64 << 32) + 1);
    assert_eq!(r.trigger, Duration::ZERO);
    assert_eq!(r.autoflow, Duration::from_nanos(10_000_000_000_000 / ((1u128 << 32) + 1) as u64));
    let expected = (u64::MAX as u128 * 1_000_000_000 + 999_999_999) / ((1u128 << 32) + 1);
    assert_eq!(r.attention.as_nanos(), expected);
    let r = d.div(1u64 << 32);
    assert_eq!(r.assembly, Duration::ZERO);
    let r = d.div(u64::MAX);
    assert_eq!(r.autoflow, Duration::ZERO);
    assert_eq!(d.div(1).attention, d.attention);
}
