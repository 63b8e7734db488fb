use daneel::cognition::types::Content;

#[test]
fn content_raw_creation() {
    let content = Content::raw(vec![1, 2, 3]);
    assert!(matches!(content, Content::Raw(_)));
}

#[test]
fn content_symbol_creation() {
    let content = Content::symbol("test", vec![42]);
    assert!(matches!(content, Content::Symbol { .. }));
}

#[test]
fn content_relation_creation() {
    let subject = Content::symbol("A", vec![]);
    let object = Content::symbol("B", vec![]);
    let relation = Content::relation(subject, "causes", object);
    assert!(matches!(relation, Content::Relation { .. }));
}

#[test]
fn content_symbol_not_embeddable() {
    let content = Content::symbol("thought_123", vec![71, 71, 71]);
    assert!(!content.is_embeddable());
    assert!(content.to_embedding_text().is_none());
}

#[test]
fn content_raw_not_embeddable() {
    let content = Content::raw(vec![1, 2, 3, 4]);
    assert!(!content.is_embeddable());
    assert!(content.to_embedding_text().is_none());
}

#[test]
fn content_empty_not_embeddable() {
    let content = Content::Empty;
    assert!(!content.is_embeddable());
    assert!(content.to_embedding_text().is_none());
}

#[test]
fn content_relation_embeddable() {
    let subject = Content::symbol("A", vec![]);
    let object = Content::symbol("B", vec![]);
    let relation = Content::relation(subject, "causes", object);

    assert!(relation.is_embeddable());
    // Subject/object are non-embeddable, so just predicate
    assert_eq!(relation.to_embedding_text(), Some("causes".to_string()));
}

#[test]
fn content_relation_with_nested_relation() {
    // "A causes B" resembles "C causes D"
    let inner1 = Content::relation(
        Content::symbol("A", vec![]),
        "causes",
        Content::symbol("B", vec![]),
    );
    let inner2 = Content::relation(
        Content::symbol("C", vec![]),
        "causes",
        Content::symbol("D", vec![]),
    );
    let outer = Content::relation(inner1, "resembles", inner2);

    assert!(outer.is_embeddable());
    let text = outer.to_embedding_text().unwrap();
    assert!(text.contains("causes"));
    assert!(text.contains("resembles"));
}

#[test]
fn content_composite_with_mixed_content() {
    let items = vec![
        Content::symbol("noise", vec![1, 2, 3]),
        Content::relation(
            Content::symbol("X", vec![]),
            "implies",
            Content::symbol("Y", vec![]),
        ),
        Content::Empty,
    ];
    let composite = Content::Composite(items);

    assert!(composite.is_embeddable());
    // Only the relation is embeddable
    assert_eq!(composite.to_embedding_text(), Some("implies".to_string()));
}

#[test]
fn content_composite_all_non_embeddable_returns_none() {
    let items = vec![
        Content::symbol("a", vec![]),
        Content::raw(vec![1]),
        Content::Empty,
    ];
    let composite = Content::Composite(items);

    // Composite of non-embeddable items is technically "embeddable" type
    // but to_embedding_text returns None since no children are embeddable
    assert!(composite.is_embeddable());
    assert!(composite.to_embedding_text().is_none());
}

#[test]
fn content_is_empty() {
    assert!(Content::Empty.is_empty());
    assert!(!Content::raw(vec![1]).is_empty());
    assert!(!Content::symbol("test", vec![]).is_empty());
}

#[test]
fn content_default_is_empty() {
    let content = Content::default();
    assert!(content.is_empty());
    assert!(matches!(content, Content::Empty));
}

#[test]
fn content_composite_creation() {
    let content = Content::Composite(vec![
        Content::raw(vec![1, 2]),
        Content::symbol("test", vec![3]),
        Content::Empty,
    ]);
    assert!(matches!(content, Content::Composite(_)));
    assert!(!content.is_empty());
}

// Additional cases

#[test]
fn nested_relation_text_is_exact() {
    let inner1 = Content::relation(Content::Empty, "causes", Content::raw(vec![]));
    let inner2 = Content::relation(Content::Empty, "heals", Content::Empty);
    let outer = Content::relation(inner1, "resembles", inner2);
    assert_eq!(
        outer.to_embedding_text(),
        Some("causes resembles heals".to_string())
    );
}

#[test]
fn relation_predicate_whitespace_is_trimmed_when_text_differs() {
    let r = Content::relation(
        Content::relation(Content::Empty, "a", Content::Empty),
        "  b ",
        Content::Empty,
    );
    // "a" + " " + "  b " + " " + "" trimmed
    assert_eq!(r.to_embedding_text(), Some("a   b".to_string()));
}

#[test]
fn relation_whitespace_only_predicate_kept_as_is() {
    let r = Content::relation(Content::Empty, "   ", Content::Empty);
    assert_eq!(r.to_embedding_text(), Some("   ".to_string()));
}

#[test]
fn composite_joins_parts_with_single_spaces() {
    let c = Content::Composite(vec![
        Content::relation(Content::Empty, "one", Content::Empty),
        Content::raw(vec![9]),
        Content::Composite(vec![Content::relation(
            Content::Empty,
            "two",
            Content::Empty,
        )]),
        Content::relation(Content::Empty, "three", Content::Empty),
    ]);
    assert_eq!(c.to_embedding_text(), Some("one two three".to_string()));
}

#[test]
fn clone_is_deep_and_equal() {
    let c = Content::Composite(vec![
        Content::relation(Content::symbol("s", vec![1]), "p", Content::raw(vec![2])),
        Content::Empty,
    ]);
    let d = c.clone();
    assert_eq!(c, d);
}
