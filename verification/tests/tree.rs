use gpui_driver::tree::{assemble_tree, check_parents_precede, NodeRecord};

type Rect = (f32, f32, f32, f32);

fn record(id: &str, parent: Option<usize>, bounds: Rect) -> NodeRecord<Rect> {
    NodeRecord {
        id: id.into(),
        kind: "div".into(),
        text: None,
        bounds,
        parent,
        interactive: true,
    }
}

const VIEWPORT: Rect = (0.0, 0.0, 800.0, 600.0);

#[test]
fn assembles_nested_tree_in_prepaint_order() {
    // prepaint order: panel { save, cancel }, footer
    let records = vec![
        record("panel", None, (0.0, 0.0, 800.0, 500.0)),
        record("save", Some(0), (10.0, 10.0, 100.0, 30.0)),
        record("cancel", Some(0), (120.0, 10.0, 100.0, 30.0)),
        record("footer", None, (0.0, 500.0, 800.0, 100.0)),
    ];
    let visible = vec![true; records.len()];
    let tree = assemble_tree(&records, &visible, VIEWPORT);
    assert_eq!(tree.kind, "window");
    assert_eq!(tree.children.len(), 2);
    let panel = &tree.children[0];
    assert_eq!(panel.id.as_deref(), Some("panel"));
    assert_eq!(panel.children.len(), 2);
    assert_eq!(panel.children[0].id.as_deref(), Some("save"));
    assert_eq!(panel.children[1].id.as_deref(), Some("cancel"));
    assert_eq!(tree.children[1].id.as_deref(), Some("footer"));
}

#[test]
fn deep_nesting() {
    let records = vec![
        record("a", None, (0.0, 0.0, 100.0, 100.0)),
        record("b", Some(0), (0.0, 0.0, 80.0, 80.0)),
        record("c", Some(1), (0.0, 0.0, 60.0, 60.0)),
    ];
    let visible = vec![true; records.len()];
    let tree = assemble_tree(&records, &visible, VIEWPORT);
    let a = &tree.children[0];
    let b = &a.children[0];
    let c = &b.children[0];
    assert_eq!(c.id.as_deref(), Some("c"));
    assert!(c.children.is_empty());
}

#[test]
fn window_node_spans_viewport_and_carries_flags() {
    let records = vec![
        record("on", None, (10.0, 10.0, 50.0, 50.0)),
        record("off", None, (900.0, 10.0, 50.0, 50.0)),
    ];
    let visible = vec![true, false];
    let tree = assemble_tree(&records, &visible, VIEWPORT);
    assert_eq!(tree.id, None);
    assert_eq!(tree.bounds, VIEWPORT);
    assert!(tree.visible && tree.enabled && !tree.focused && !tree.interactive);
    assert!(tree.children[0].visible);
    assert!(!tree.children[1].visible);
    assert_eq!(tree.children[1].bounds, (900.0, 10.0, 50.0, 50.0));
    assert!(tree.children[0].enabled && !tree.children[0].focused && tree.children[0].interactive);
}

#[test]
fn empty_records_give_bare_window() {
    let records: Vec<NodeRecord<Rect>> = Vec::new();
    let tree = assemble_tree(&records, &[], VIEWPORT);
    assert_eq!(tree.kind, "window");
    assert!(tree.children.is_empty());
}

#[test]
fn parent_order_is_checked_before_assembly() {
    let b = (0.0, 0.0, 1.0, 1.0);
    assert!(check_parents_precede(&[record("a", None, b), record("b", Some(0), b), record("c", Some(1), b)]));
    assert!(!check_parents_precede(&[record("a", Some(1), b), record("b", None, b)]));
    assert!(!check_parents_precede(&[record("a", Some(0), b)]));
    assert!(check_parents_precede::<Rect>(&[]));
}
