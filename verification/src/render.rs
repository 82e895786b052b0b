//! Human-readable tree rendering: a compact indented listing, cheaper in agent
//! context windows than raw JSON. Geometry arrives pre-rendered as text.

use vstd::prelude::*;
use vstd::string::*;
use crate::text::{debug_quoted, debug_text};
use crate::tree::{TreeNode, TreeNodeView, node_view, nodes_view, opt_text};

verus! {

/// Whether any node below `n` is interactive.
pub open spec fn interactive_below(n: TreeNodeView<String>) -> bool
    decreases n, 1int,
{
    any_interactive(n.children)
}

/// Whether any node in `s`, or below one, is interactive.
pub open spec fn any_interactive(s: Seq<TreeNodeView<String>>) -> bool
    decreases s, 0int,
{
    if s.len() == 0 {
        false
    } else {
        any_interactive(s.drop_last()) || s.last().interactive || interactive_below(s.last())
    }
}

/// `depth` levels of two-space indentation.
pub open spec fn indent(depth: nat) -> Seq<char>
    decreases depth,
{
    if depth == 0 {
        Seq::empty()
    } else {
        indent((depth - 1) as nat) + "  "@
    }
}

/// The line text of a node (without indentation and newline): its id and kind
/// (or `(kind)` for an anonymous node), its quoted text, its geometry, and the
/// `(hidden)` / `(focused)` markers.
pub open spec fn node_label(n: TreeNodeView<String>) -> Seq<char> {
    label_text(n.id, n.kind, n.text, n.bounds@, n.visible, n.focused)
}

/// The line text assembled from a node's parts.
pub open spec fn label_text(
    id: Option<Seq<char>>,
    kind: Seq<char>,
    text: Option<Seq<char>>,
    bounds: Seq<char>,
    visible: bool,
    focused: bool,
) -> Seq<char> {
    let head = match id {
        Some(i) => i + " <"@ + kind + ">"@,
        None => "("@ + kind + ")"@,
    };
    let quoted = match text {
        Some(t) => " "@ + debug_text(t),
        None => Seq::empty(),
    };
    let hidden = if !visible { " (hidden)"@ } else { Seq::empty() };
    let focus = if focused { " (focused)"@ } else { Seq::empty() };
    head + quoted + " "@ + bounds + hidden + focus
}

/// Whether a node gets a line: always, or, when only interactive nodes are shown,
/// if it is interactive or has an interactive descendant (structural ancestors stay).
pub open spec fn shown(n: TreeNodeView<String>, interactive_only: bool) -> bool {
    !interactive_only || n.interactive || interactive_below(n)
}

/// The rendering of a node at `depth`: its line if shown, then its children, one
/// level deeper when the node itself was shown.
pub open spec fn render_spec(n: TreeNodeView<String>, depth: nat, interactive_only: bool) -> Seq<char>
    decreases n, 1int,
{
    (if shown(n, interactive_only) {
        indent(depth) + node_label(n) + "\n"@
    } else {
        Seq::empty()
    }) + render_all(n.children, if shown(n, interactive_only) { depth + 1 } else { depth }, interactive_only)
}

/// The renderings of a sequence of sibling nodes, concatenated in order.
pub open spec fn render_all(s: Seq<TreeNodeView<String>>, depth: nat, interactive_only: bool) -> Seq<char>
    decreases s, 0int,
{
    if s.len() == 0 {
        Seq::empty()
    } else {
        render_all(s.drop_last(), depth, interactive_only) + render_spec(s.last(), depth, interactive_only)
    }
}

/// Whether any descendant of `node` is interactive.
pub fn has_interactive_descendant(node: &TreeNode<String>) -> (b: bool)
    ensures
        b == interactive_below(node@),
    decreases node,
{
    let ghost v = node_view(*node);
    let mut i: usize = 0;
    let mut found = false;
    while i < node.children.len()
        invariant
            v == node_view(*node),
            i <= node.children.len(),
            found == any_interactive(nodes_view(node.children@.subrange(0, i as int))),
        decreases node.children.len() - i,
    {
        let c = &node.children[i];
        proof {
            let pre = node.children@.subrange(0, i as int);
            let post = node.children@.subrange(0, i + 1);
            assert(post.drop_last() =~= pre);
            assert(nodes_view(post).drop_last() == nodes_view(pre));
            assert(nodes_view(post).last() == node_view(*c));
        }
        let here = c.interactive || has_interactive_descendant(c);
        found = found || here;
        i = i + 1;
    }
    assert(node.children@.subrange(0, node.children.len() as int) =~= node.children@);
    found
}

/// The line text of a node, built from its parts.
fn label_string(
    id: &Option<String>,
    kind: &String,
    text: &Option<String>,
    bounds: &String,
    visible: bool,
    focused: bool,
) -> (s: String)
    ensures
        s@ == label_text(opt_text(*id), kind@, opt_text(*text), bounds@, visible, focused),
{
    let mut out = String::new();
    match id {
        Some(i) => {
            out.append(i.as_str());
            out.append(" <");
            out.append(kind.as_str());
            out.append(">");
        },
        None => {
            out.append("(");
            out.append(kind.as_str());
            out.append(")");
        },
    }
    let ghost head = out@;
    match text {
        Some(t) => {
            out.append(" ");
            let q = debug_quoted(t.as_str());
            out.append(q.as_str());
        },
        None => {},
    }
    let ghost quoted = out@;
    out.append(" ");
    out.append(bounds.as_str());
    if !visible {
        out.append(" (hidden)");
    }
    if focused {
        out.append(" (focused)");
    }
    assert(out@ =~= label_text(opt_text(*id), kind@, opt_text(*text), bounds@, visible, focused));
    out
}

/// Appends the line of `node` at the indentation `prefix`.
fn write_line(node: &TreeNode<String>, prefix: &String, out: &mut String)
    ensures
        final(out)@ == old(out)@ + (prefix@ + node_label(node@) + "\n"@),
{
    let ghost start = out@;
    let label = label_string(&node.id, &node.kind, &node.text, &node.bounds, node.visible, node.focused);
    out.append(prefix.as_str());
    out.append(label.as_str());
    out.append("\n");
    assert(out@ =~= start + (prefix@ + node_label(node@) + "\n"@));
}

/// Appends the rendering of `node` at the indentation `prefix`.
fn render_node(node: &TreeNode<String>, prefix: &String, depth: Ghost<nat>, interactive_only: bool, out: &mut String)
    requires
        prefix@ == indent(depth@),
    ensures
        final(out)@ == old(out)@ + render_spec(node@, depth@, interactive_only),
    decreases node,
{
    let ghost v = node_view(*node);
    let ghost start = out@;
    let with_line = !interactive_only || node.interactive || has_interactive_descendant(node);
    if with_line {
        write_line(node, prefix, out);
    }
    let ghost mid = out@;
    let mut child_prefix = prefix.clone();
    if with_line {
        child_prefix.append("  ");
    }
    let ghost child_depth: nat = if with_line { depth@ + 1 } else { depth@ };
    assert(child_prefix@ == indent(child_depth));
    let mut i: usize = 0;
    while i < node.children.len()
        invariant
            v == node_view(*node),
            child_prefix@ == indent(child_depth),
            i <= node.children.len(),
            out@ == mid + render_all(nodes_view(node.children@.subrange(0, i as int)), child_depth, interactive_only),
        decreases node.children.len() - i,
    {
        let c = &node.children[i];
        proof {
            let pre = node.children@.subrange(0, i as int);
            let post = node.children@.subrange(0, i + 1);
            assert(post.drop_last() =~= pre);
            assert(nodes_view(post).drop_last() == nodes_view(pre));
            assert(nodes_view(post).last() == node_view(*c));
        }
        render_node(c, &child_prefix, Ghost(child_depth), interactive_only, out);
        proof {
            let post = node.children@.subrange(0, i + 1);
            assert(render_all(nodes_view(post), child_depth, interactive_only)
                == render_all(nodes_view(node.children@.subrange(0, i as int)), child_depth, interactive_only)
                    + render_spec(node_view(*c), child_depth, interactive_only));
        }
        i = i + 1;
    }
    assert(node.children@.subrange(0, node.children.len() as int) =~= node.children@);
    assert(v.children == nodes_view(node.children@));
    assert(out@ =~= start + render_spec(v, depth@, interactive_only));
}

/// Renders a tree whose geometry is already text, one line per shown node.
pub fn render_tree(node: &TreeNode<String>, interactive_only: bool) -> (s: String)
    ensures
        s@ == render_spec(node@, 0, interactive_only),
{
    let mut out = String::new();
    let prefix = String::new();
    render_node(node, &prefix, Ghost(0), interactive_only, &mut out);
    assert(out@ =~= render_spec(node@, 0, interactive_only));
    out
}

// ---- the rendering as a list of lines ----

/// The lines of the tree under `n` in preorder: each node with its depth below the
/// root (the root at `depth`).
pub open spec fn tree_lines(n: TreeNodeView<String>, depth: nat) -> Seq<(nat, TreeNodeView<String>)>
    decreases n, 1int,
{
    seq![(depth, n)] + forest_lines(n.children, depth + 1)
}

/// The lines of sibling trees, in order.
pub open spec fn forest_lines(s: Seq<TreeNodeView<String>>, depth: nat) -> Seq<(nat, TreeNodeView<String>)>
    decreases s, 0int,
{
    if s.len() == 0 {
        Seq::empty()
    } else {
        forest_lines(s.drop_last(), depth) + tree_lines(s.last(), depth)
    }
}

/// The text of one line: indentation, label, newline.
pub open spec fn line_text(l: (nat, TreeNodeView<String>)) -> Seq<char> {
    indent(l.0) + node_label(l.1) + "\n"@
}

/// The texts of `ls`, concatenated in order.
pub open spec fn join_lines(ls: Seq<(nat, TreeNodeView<String>)>) -> Seq<char>
    decreases ls.len(),
{
    if ls.len() == 0 {
        Seq::empty()
    } else {
        join_lines(ls.drop_last()) + line_text(ls.last())
    }
}

/// Whether a line survives `--interactive-only`.
pub open spec fn kept_line() -> spec_fn((nat, TreeNodeView<String>)) -> bool {
    |l: (nat, TreeNodeView<String>)| shown(l.1, true)
}

pub proof fn lemma_join_add(a: Seq<(nat, TreeNodeView<String>)>, b: Seq<(nat, TreeNodeView<String>)>)
    ensures
        join_lines(a + b) == join_lines(a) + join_lines(b),
    decreases b.len(),
{
    if b.len() == 0 {
        assert(a + b =~= a);
    } else {
        assert((a + b).drop_last() =~= a + b.drop_last());
        lemma_join_add(a, b.drop_last());
    }
}

proof fn lemma_filter_empty<A>(p: spec_fn(A) -> bool)
    ensures
        Seq::<A>::empty().filter(p) == Seq::<A>::empty(),
{
    reveal(Seq::filter);
}

proof fn lemma_filter_single<A>(x: A, p: spec_fn(A) -> bool)
    ensures
        seq![x].filter(p) == if p(x) { seq![x] } else { Seq::<A>::empty() },
{
    Seq::<A>::empty().lemma_filter_prepend(x, p);
    lemma_filter_empty(p);
    assert(seq![x] + Seq::<A>::empty() =~= seq![x]);
    assert(seq![x] + Seq::<A>::empty() =~= seq![x]);
}

proof fn lemma_join_single(x: (nat, TreeNodeView<String>))
    ensures
        join_lines(seq![x]) == line_text(x),
{
    let one = seq![x];
    assert(one.drop_last() =~= Seq::<(nat, TreeNodeView<String>)>::empty());
    assert(join_lines(one.drop_last()) == Seq::<char>::empty());
    assert(join_lines(one) =~= line_text(x));
}

/// The full rendering of a tree is the text of its lines.
pub proof fn lemma_full_tree(n: TreeNodeView<String>, depth: nat)
    ensures
        render_spec(n, depth, false) == join_lines(tree_lines(n, depth)),
    decreases n, 1int,
{
    lemma_full_forest(n.children, depth + 1);
    lemma_join_add(seq![(depth, n)], forest_lines(n.children, depth + 1));
    lemma_join_single((depth, n));
    assert(shown(n, false));
    assert(render_spec(n, depth, false) =~= line_text((depth, n)) + render_all(n.children, depth + 1, false));
}

/// The full rendering of sibling trees is the text of their lines.
pub proof fn lemma_full_forest(s: Seq<TreeNodeView<String>>, depth: nat)
    ensures
        render_all(s, depth, false) == join_lines(forest_lines(s, depth)),
    decreases s, 0int,
{
    if s.len() > 0 {
        lemma_full_forest(s.drop_last(), depth);
        lemma_full_tree(s.last(), depth);
        lemma_join_add(forest_lines(s.drop_last(), depth), tree_lines(s.last(), depth));
    }
}

/// A tree without interactive nodes renders nothing in interactive-only mode, and
/// none of its lines is kept.
pub proof fn lemma_quiet_tree(n: TreeNodeView<String>, d_render: nat, d_lines: nat)
    requires
        !n.interactive,
        !interactive_below(n),
    ensures
        render_spec(n, d_render, true) == Seq::<char>::empty(),
        tree_lines(n, d_lines).filter(kept_line()) == Seq::<(nat, TreeNodeView<String>)>::empty(),
    decreases n, 1int,
{
    lemma_quiet_forest(n.children, d_render, d_lines + 1);
    Seq::filter_distributes_over_add(seq![(d_lines, n)], forest_lines(n.children, d_lines + 1), kept_line());
    lemma_filter_single((d_lines, n), kept_line());
    assert(!shown(n, true));
    assert(render_spec(n, d_render, true) =~= Seq::<char>::empty());
    assert(tree_lines(n, d_lines).filter(kept_line()) =~= Seq::<(nat, TreeNodeView<String>)>::empty());
}

/// Sibling trees without interactive nodes render nothing in interactive-only mode,
/// and none of their lines is kept.
pub proof fn lemma_quiet_forest(s: Seq<TreeNodeView<String>>, d_render: nat, d_lines: nat)
    requires
        !any_interactive(s),
    ensures
        render_all(s, d_render, true) == Seq::<char>::empty(),
        forest_lines(s, d_lines).filter(kept_line()) == Seq::<(nat, TreeNodeView<String>)>::empty(),
    decreases s, 0int,
{
    if s.len() == 0 {
        assert(forest_lines(s, d_lines) == Seq::<(nat, TreeNodeView<String>)>::empty());
        lemma_filter_empty(kept_line());
    } else {
        lemma_quiet_forest(s.drop_last(), d_render, d_lines);
        lemma_quiet_tree(s.last(), d_render, d_lines);
        Seq::filter_distributes_over_add(forest_lines(s.drop_last(), d_lines), tree_lines(s.last(), d_lines), kept_line());
        assert(render_all(s, d_render, true) =~= Seq::<char>::empty());
        assert(forest_lines(s, d_lines).filter(kept_line()) =~= Seq::<(nat, TreeNodeView<String>)>::empty());
    }
}

/// The interactive-only rendering of a tree is the text of its kept lines.
pub proof fn lemma_kept_tree(n: TreeNodeView<String>, depth: nat)
    ensures
        render_spec(n, depth, true) == join_lines(tree_lines(n, depth).filter(kept_line())),
    decreases n, 1int,
{
    if shown(n, true) {
        lemma_kept_forest(n.children, depth + 1);
        Seq::filter_distributes_over_add(seq![(depth, n)], forest_lines(n.children, depth + 1), kept_line());
        lemma_filter_single((depth, n), kept_line());
        lemma_join_add(seq![(depth, n)], forest_lines(n.children, depth + 1).filter(kept_line()));
        lemma_join_single((depth, n));
        assert(render_spec(n, depth, true) =~= line_text((depth, n)) + render_all(n.children, depth + 1, true));
    } else {
        lemma_quiet_tree(n, depth, depth);
        assert(join_lines(Seq::<(nat, TreeNodeView<String>)>::empty()) == Seq::<char>::empty());
    }
}

/// The interactive-only rendering of sibling trees is the text of their kept lines.
pub proof fn lemma_kept_forest(s: Seq<TreeNodeView<String>>, depth: nat)
    ensures
        render_all(s, depth, true) == join_lines(forest_lines(s, depth).filter(kept_line())),
    decreases s, 0int,
{
    if s.len() == 0 {
        assert(forest_lines(s, depth) == Seq::<(nat, TreeNodeView<String>)>::empty());
        lemma_filter_empty(kept_line());
    } else {
        lemma_kept_forest(s.drop_last(), depth);
        lemma_kept_tree(s.last(), depth);
        Seq::filter_distributes_over_add(forest_lines(s.drop_last(), depth), tree_lines(s.last(), depth), kept_line());
        lemma_join_add(forest_lines(s.drop_last(), depth).filter(kept_line()), tree_lines(s.last(), depth).filter(kept_line()));
    }
}

} // verus!
