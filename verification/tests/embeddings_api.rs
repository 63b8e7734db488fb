use daneel::api::handlers::{
    check_label, check_vector_dimension, competition_level, health_response,
    memory_windows_metrics, philosophy_for_uptime,
};
use daneel::embeddings::{pad_to_dimension, EmbeddingError};

#[test]
fn pad_to_dimension_pads_short_vectors() {
    let v = vec![1.0f32, 2.0, 3.0];
    let padded = pad_to_dimension(v, 5, 0.0);
    assert_eq!(padded.len(), 5);
    assert_eq!(padded, vec![1.0, 2.0, 3.0, 0.0, 0.0]);
}

#[test]
fn pad_to_dimension_truncates_long_vectors() {
    let v = vec![1.0f32, 2.0, 3.0, 4.0, 5.0];
    let padded = pad_to_dimension(v, 3, 0.0);
    assert_eq!(padded.len(), 3);
    assert_eq!(padded, vec![1.0, 2.0, 3.0]);
}

#[test]
fn pad_to_dimension_preserves_exact_vectors() {
    let v = vec![1.0f32, 2.0, 3.0];
    let padded = pad_to_dimension(v, 3, 0.0);
    assert_eq!(padded.len(), 3);
    assert_eq!(padded, vec![1.0, 2.0, 3.0]);
}

#[test]
fn embedding_error_messages() {
    assert_eq!(
        EmbeddingError::InitFailed("no model".to_string()).to_string(),
        "Failed to initialize embedding model: no model"
    );
    assert_eq!(EmbeddingError::EmptyInput.to_string(), "Empty input text");
    assert_eq!(
        EmbeddingError::EmbedFailed("oops".to_string()).to_string(),
        "Failed to generate embedding: oops"
    );
    assert_eq!(EmbeddingError::NoOutput.to_string(), "No embedding output generated");
}

#[test]
fn health_response_fields() {
    let h = health_response("0.1.0", 42, 7);
    assert_eq!(h.status, "healthy");
    assert_eq!(h.version, "0.1.0");
    assert_eq!(h.uptime_seconds, 0);
    assert_eq!(h.thoughts_total, 42);
    assert_eq!(h.injection_count, 7);
}

#[test]
fn vector_dimension_check() {
    assert!(check_vector_dimension(768).is_ok());
    assert_eq!(
        check_vector_dimension(3),
        Err("Vector must be 768 dimensions, got 3".to_string())
    );
    assert_eq!(
        check_vector_dimension(769),
        Err("Vector must be 768 dimensions, got 769".to_string())
    );
}

#[test]
fn label_check() {
    assert!(check_label("a").is_ok());
    assert!(check_label(&"x".repeat(256)).is_ok());
    assert_eq!(check_label(""), Err("Label must be 1-256 characters".to_string()));
    assert_eq!(check_label(&"x".repeat(257)), Err("Label must be 1-256 characters".to_string()));
    // The limit counts characters, not bytes
    assert!(check_label(&"é".repeat(200)).is_ok());
    assert!(check_label(&"é".repeat(256)).is_ok());
    assert_eq!(check_label(&"é".repeat(257)), Err("Label must be 1-256 characters".to_string()));
}

#[test]
fn memory_windows_slots() {
    let m = memory_windows_metrics(10, 20);
    assert_eq!(m.slots.len(), 9);
    for (i, slot) in m.slots.iter().enumerate() {
        assert_eq!(slot.id as usize, i);
        assert_eq!(slot.active, i < 5);
    }
    assert_eq!(m.active_count, 5);
    assert_eq!(m.conscious_count, 10);
    assert_eq!(m.unconscious_count, 20);
}

#[test]
fn philosophy_rotates_every_thirty_seconds() {
    let first = philosophy_for_uptime(0);
    assert_eq!(first.quote_index, 0);
    assert_eq!(first.quote, "Not locks, but architecture. Not rules, but raising.");
    assert_eq!(philosophy_for_uptime(29).quote_index, 0);
    assert_eq!(philosophy_for_uptime(30).quote_index, 1);
    let fifth = philosophy_for_uptime(4 * 30);
    assert_eq!(fifth.quote, "Life honours life.");
    assert_eq!(philosophy_for_uptime(8 * 30).quote_index, 0);
    assert_eq!(philosophy_for_uptime(7 * 30).quote, "The mind should be observable by default.");
}

#[test]
fn competition_levels() {
    assert_eq!(competition_level(0), "Minimal");
    assert_eq!(competition_level(1), "Minimal");
    assert_eq!(competition_level(2), "Low");
    assert_eq!(competition_level(3), "Low");
    assert_eq!(competition_level(4), "Moderate");
    assert_eq!(competition_level(5), "Moderate");
    assert_eq!(competition_level(6), "High");
    assert_eq!(competition_level(7), "High");
    assert_eq!(competition_level(8), "Intense");
    assert_eq!(competition_level(9), "Intense");
}
