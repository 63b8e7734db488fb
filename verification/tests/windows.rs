use daneel::cognition::types::{Content, Window, WindowId};
use daneel::timestamp::Timestamp;

#[test]
fn window_operations() {
    let mut window = Window::new().with_label("test".to_string());
    assert!(window.is_open);
    assert_eq!(window.label, Some("test".to_string()));

    window.push(Content::raw(vec![1, 2, 3]));
    assert_eq!(window.contents.len(), 1);

    window.close();
    assert!(!window.is_open);
}

#[test]
fn window_default() {
    let window = Window::default();
    assert!(window.is_open);
    assert!(window.label.is_none());
    assert!(window.contents.is_empty());
}

#[test]
fn window_id_new_unique() {
    let id1 = WindowId::new();
    let id2 = WindowId::new();
    assert_ne!(id1, id2);
}

#[test]
fn window_id_default() {
    let id1 = WindowId::default();
    let id2 = WindowId::default();
    assert_ne!(id1, id2);
}

#[test]
fn window_id_display() {
    let id = WindowId::new();
    let display = id.to_string();
    assert!(!display.is_empty());
    assert_eq!(display.len(), 36);
}

#[test]
fn window_keeps_contents_in_order_and_closing_keeps_them() {
    let mut window = Window::opened(WindowId(5), Timestamp { secs: 3, nanos: 0 });
    window.push(Content::raw(vec![1]));
    window.push(Content::raw(vec![2]));
    window.close();
    assert_eq!(window.contents, vec![Content::raw(vec![1]), Content::raw(vec![2])]);
    assert_eq!(window.id, WindowId(5));
    assert_eq!(window.opened_at, Timestamp { secs: 3, nanos: 0 });
    assert!(!window.is_open);
}
