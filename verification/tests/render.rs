use gpui_driver::render::{has_interactive_descendant, render_tree};
use gpui_driver::tree::TreeNode;

fn node(id: Option<&str>, interactive: bool, children: Vec<TreeNode<String>>) -> TreeNode<String> {
    TreeNode {
        id: id.map(Into::into),
        kind: "div".into(),
        text: None,
        bounds: "[0,0 100x50]".into(),
        visible: true,
        enabled: true,
        focused: false,
        interactive,
        children,
    }
}

#[test]
fn renders_indented_ids() {
    let tree = node(None, false, vec![
        node(Some("save"), true, vec![]),
        node(Some("panel"), false, vec![node(Some("cancel"), true, vec![])]),
    ]);
    let out = render_tree(&tree, false);
    let lines: Vec<&str> = out.lines().collect();
    assert!(lines[0].starts_with("(div)"));
    assert!(lines[1].starts_with("  save <div>"));
    assert!(lines[2].starts_with("  panel <div>"));
    assert!(lines[3].starts_with("    cancel <div>"));
}

#[test]
fn interactive_only_keeps_structural_ancestors() {
    let tree = node(None, false, vec![
        node(Some("decoration"), false, vec![]),
        node(Some("panel"), false, vec![node(Some("ok"), true, vec![])]),
    ]);
    let out = render_tree(&tree, true);
    assert!(!out.contains("decoration"));
    assert!(out.contains("panel"));
    assert!(out.contains("ok"));
}

#[test]
fn renders_text_geometry_and_markers() {
    let mut n = node(Some("save_button"), true, vec![]);
    n.text = Some("Save \"now\"".into());
    n.visible = false;
    n.focused = true;
    let out = render_tree(&n, false);
    assert_eq!(out, "save_button <div> \"Save \\\"now\\\"\" [0,0 100x50] (hidden) (focused)\n");
}

#[test]
fn hidden_subtrees_do_not_deepen_indentation() {
    let tree = node(Some("root"), false, vec![node(None, false, vec![node(Some("leaf"), true, vec![])])]);
    let out = render_tree(&tree, true);
    assert_eq!(out, "root <div> [0,0 100x50]\n  (div) [0,0 100x50]\n    leaf <div> [0,0 100x50]\n");
    let flat = node(None, false, vec![node(Some("x"), false, vec![])]);
    assert_eq!(render_tree(&flat, true), "");
    assert!(!has_interactive_descendant(&flat));
    assert!(has_interactive_descendant(&tree));
}

#[test]
fn interactive_only_lines_are_a_subsequence_of_the_full_lines() {
    let tree = node(
        None,
        false,
        vec![
            node(Some("plain"), false, vec![node(Some("leaf"), false, vec![])]),
            node(Some("panel"), false, vec![node(Some("button"), true, vec![])]),
        ],
    );
    let full = render_tree(&tree, false);
    let kept = render_tree(&tree, true);
    let full_lines: Vec<&str> = full.lines().collect();
    let kept_lines: Vec<&str> = kept.lines().collect();
    let expected: Vec<&str> = full_lines
        .iter()
        .copied()
        .filter(|l| !l.contains("plain") && !l.contains("leaf"))
        .collect();
    assert_eq!(kept_lines, expected);
    assert_eq!(kept_lines.len(), 3);
}
