use gpui_driver::registry::Registry;
use gpui_driver::tree::{assemble_tree, NodeRecord};

fn record(id: &str) -> NodeRecord<u32> {
    NodeRecord {
        id: id.into(),
        kind: "div".into(),
        text: None,
        bounds: 0,
        parent: None,
        interactive: true,
    }
}

#[test]
fn registry_enter_exit_tracks_parents_only_while_collecting() {
    let mut reg: Registry<u32> = Registry::new();
    // Not collecting: enter is a no-op.
    assert!(reg.enter(1, record("x")).is_none());

    reg.begin_collect(1);
    let a = reg.enter(1, record("a")).unwrap();
    let b = reg.enter(1, record("b")).unwrap();
    reg.exit(1);
    let c = reg.enter(1, record("c")).unwrap();
    reg.exit(1);
    reg.exit(1);
    let records = reg.end_collect(1);

    assert_eq!(records.len(), 3);
    assert_eq!(records[a].parent, None);
    assert_eq!(records[b].parent, Some(a));
    assert_eq!(records[c].parent, Some(a));

    // After end_collect, recording stops again.
    assert!(reg.enter(1, record("y")).is_none());
}

#[test]
fn windows_are_independent_and_begin_clears() {
    let mut reg: Registry<u32> = Registry::new();
    reg.begin_collect(1);
    assert!(reg.is_collecting(1));
    assert!(!reg.is_collecting(2));
    assert_eq!(reg.enter(1, record("a")), Some(0));
    assert!(reg.enter(2, record("b")).is_none());
    reg.exit(1);
    assert_eq!(reg.end_collect(1).len(), 1);
    // Records stay until the next collection starts.
    assert_eq!(reg.end_collect(1).len(), 1);
    reg.begin_collect(1);
    assert_eq!(reg.end_collect(1).len(), 0);
}

#[test]
fn collected_records_assemble_into_their_nesting() {
    let mut reg: Registry<u32> = Registry::new();
    reg.begin_collect(7);
    reg.enter(7, record("panel"));
    reg.enter(7, record("save"));
    reg.exit(7);
    reg.enter(7, record("cancel"));
    reg.exit(7);
    reg.exit(7);
    reg.enter(7, record("footer"));
    reg.exit(7);
    let records = reg.end_collect(7);
    let visible = vec![true; records.len()];
    let tree = assemble_tree(&records, &visible, 0);
    assert_eq!(tree.children.len(), 2);
    assert_eq!(tree.children[0].children.len(), 2);
    assert_eq!(tree.children[0].children[1].id.as_deref(), Some("cancel"));
    assert_eq!(tree.children[1].id.as_deref(), Some("footer"));
}
