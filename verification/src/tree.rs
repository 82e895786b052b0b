//! Flat, prepaint-ordered element records and the nested tree the protocol exposes.

use vstd::prelude::*;

verus! {

/// One registered element, recorded during the prepaint of a collection draw.
/// `B` is the element's geometry, carried through unchanged.
pub struct NodeRecord<B> {
    pub id: String,
    pub kind: String,
    pub text: Option<String>,
    pub bounds: B,
    /// Index of the parent record in the same sequence; `None` for roots.
    pub parent: Option<usize>,
    pub interactive: bool,
}

/// A node of the element tree returned by the `tree` method.
pub struct TreeNode<B> {
    /// `driver_id` if set; `None` for non-addressable structural nodes.
    pub id: Option<String>,
    pub kind: String,
    /// Visible text content, best effort.
    pub text: Option<String>,
    pub bounds: B,
    pub visible: bool,
    pub enabled: bool,
    pub focused: bool,
    /// Whether the element has click/key handlers.
    pub interactive: bool,
    pub children: Vec<TreeNode<B>>,
}

/// Mathematical value of a [`TreeNode`].
pub struct TreeNodeView<B> {
    pub id: Option<Seq<char>>,
    pub kind: Seq<char>,
    pub text: Option<Seq<char>>,
    pub bounds: B,
    pub visible: bool,
    pub enabled: bool,
    pub focused: bool,
    pub interactive: bool,
    pub children: Seq<TreeNodeView<B>>,
}

/// Mathematical value of a [`NodeRecord`].
pub struct RecordView<B> {
    pub id: Seq<char>,
    pub kind: Seq<char>,
    pub text: Option<Seq<char>>,
    pub bounds: B,
    pub parent: Option<usize>,
    pub interactive: bool,
}

pub open spec fn opt_text(t: Option<String>) -> Option<Seq<char>> {
    match t {
        Some(s) => Some(s@),
        None => None,
    }
}

impl<B> View for NodeRecord<B> {
    type V = RecordView<B>;

    open spec fn view(&self) -> RecordView<B> {
        RecordView {
            id: self.id@,
            kind: self.kind@,
            text: opt_text(self.text),
            bounds: self.bounds,
            parent: self.parent,
            interactive: self.interactive,
        }
    }
}

/// The value of a tree node.
pub open spec fn node_view<B>(n: TreeNode<B>) -> TreeNodeView<B>
    decreases n, 0int,
{
    TreeNodeView {
        id: opt_text(n.id),
        kind: n.kind@,
        text: opt_text(n.text),
        bounds: n.bounds,
        visible: n.visible,
        enabled: n.enabled,
        focused: n.focused,
        interactive: n.interactive,
        children: nodes_view(n.children@),
    }
}

/// The values of a sequence of tree nodes.
pub open spec fn nodes_view<B>(s: Seq<TreeNode<B>>) -> Seq<TreeNodeView<B>>
    decreases s, s.len(),
{
    if s.len() == 0 {
        Seq::empty()
    } else {
        nodes_view(s.drop_last()).push(node_view(s.last()))
    }
}

impl<B> View for TreeNode<B> {
    type V = TreeNodeView<B>;

    open spec fn view(&self) -> TreeNodeView<B> {
        node_view(*self)
    }
}


/// The values of a sequence of records.
pub open spec fn records_view<B>(s: Seq<NodeRecord<B>>) -> Seq<RecordView<B>> {
    s.map_values(|r: NodeRecord<B>| r@)
}

/// Every record's parent comes before it, as a prepaint nesting stack produces them.
pub open spec fn parents_precede<B>(recs: Seq<RecordView<B>>) -> bool {
    forall|i: int|
        0 <= i < recs.len() ==> match #[trigger] recs[i].parent {
            Some(p) => p < i,
            None => true,
        }
}

/// The tree node that presents record `r` with the given children.
pub open spec fn record_node<B>(
    r: RecordView<B>,
    visible: bool,
    children: Seq<TreeNodeView<B>>,
) -> TreeNodeView<B> {
    TreeNodeView {
        id: Some(r.id),
        kind: r.kind,
        text: r.text,
        bounds: r.bounds,
        visible,
        enabled: true,
        focused: false,
        interactive: r.interactive,
        children,
    }
}

/// The subtree rooted at record `i`: its children are the records whose parent is `i`,
/// in record order, each with its own subtree.
pub open spec fn subtree<B>(recs: Seq<RecordView<B>>, vis: Seq<bool>, i: int) -> TreeNodeView<B>
    decreases recs.len() - i, 0int,
{
    record_node(
        recs[i],
        vis[i],
        if 0 <= i < recs.len() {
            children_from(recs, vis, i, i + 1)
        } else {
            Seq::empty()
        },
    )
}

/// The subtrees of the records at or after `from` whose parent is `p`, in record order.
pub open spec fn children_from<B>(
    recs: Seq<RecordView<B>>,
    vis: Seq<bool>,
    p: int,
    from: int,
) -> Seq<TreeNodeView<B>>
    decreases recs.len() - from, 1int,
{
    if from < 0 || from >= recs.len() {
        Seq::empty()
    } else if recs[from].parent == Some(p as usize) && p >= 0 {
        seq![subtree(recs, vis, from)] + children_from(recs, vis, p, from + 1)
    } else {
        children_from(recs, vis, p, from + 1)
    }
}

/// The subtrees of the root records (no parent) at or after `from`, in record order.
pub open spec fn roots_from<B>(recs: Seq<RecordView<B>>, vis: Seq<bool>, from: int) -> Seq<
    TreeNodeView<B>,
>
    decreases recs.len() - from,
{
    if from < 0 || from >= recs.len() {
        Seq::empty()
    } else if recs[from].parent is None {
        seq![subtree(recs, vis, from)] + roots_from(recs, vis, from + 1)
    } else {
        roots_from(recs, vis, from + 1)
    }
}

/// The whole window tree: a structural `"window"` node spanning the viewport whose
/// children are the root records.
pub open spec fn window_tree<B>(recs: Seq<RecordView<B>>, vis: Seq<bool>, viewport: B) -> TreeNodeView<B> {
    TreeNodeView {
        id: None,
        kind: "window"@,
        text: None,
        bounds: viewport,
        visible: true,
        enabled: true,
        focused: false,
        interactive: false,
        children: roots_from(recs, vis, 0),
    }
}

pub(crate) fn clone_text(t: &Option<String>) -> (r: Option<String>)
    ensures
        opt_text(r) == opt_text(*t),
{
    match t {
        Some(s) => Some(s.clone()),
        None => None,
    }
}

proof fn lemma_nodes_view_push<B>(s: Seq<TreeNode<B>>, n: TreeNode<B>)
    ensures
        nodes_view(s.push(n)) == nodes_view(s).push(node_view(n)),
{
    assert(s.push(n).drop_last() =~= s);
    assert(s.push(n).last() == n);
}

/// Builds the subtree rooted at record `i`.
fn build_subtree<B: Copy>(records: &[NodeRecord<B>], visible: &[bool], i: usize) -> (n: TreeNode<B>)
    requires
        i < records.len(),
        visible.len() == records.len(),
    ensures
        n@ == subtree(records_view(records@), visible@, i as int),
    decreases records.len() - i,
{
    let ghost recs = records_view(records@);
    let mut children: Vec<TreeNode<B>> = Vec::new();
    let mut j: usize = i + 1;
    assert(nodes_view(children@) =~= Seq::<TreeNodeView<B>>::empty());
    while j < records.len()
        invariant
            i < j <= records.len(),
            visible.len() == records.len(),
            recs == records_view(records@),
            nodes_view(children@) + children_from(recs, visible@, i as int, j as int)
                == children_from(recs, visible@, i as int, i + 1),
        decreases records.len() - j,
    {
        let ghost before = nodes_view(children@);
        assert(recs[j as int] == records@[j as int]@);
        if records[j].parent == Some(i) {
            let c = build_subtree(records, visible, j);
            proof {
                lemma_nodes_view_push(children@, c);
            }
            children.push(c);
            assert(nodes_view(children@) + children_from(recs, visible@, i as int, j + 1)
                =~= before + children_from(recs, visible@, i as int, j as int));
        } else {
            assert(children_from(recs, visible@, i as int, j as int)
                == children_from(recs, visible@, i as int, j + 1));
        }
        j = j + 1;
    }
    assert(nodes_view(children@) =~= children_from(recs, visible@, i as int, i + 1));
    let r = &records[i];
    assert(recs[i as int] == records@[i as int]@);
    TreeNode {
        id: Some(r.id.clone()),
        kind: r.kind.clone(),
        text: clone_text(&r.text),
        bounds: r.bounds,
        visible: visible[i],
        enabled: true,
        focused: false,
        interactive: r.interactive,
        children,
    }
}

/// Whether every record's parent comes before it (what `assemble_tree` needs).
pub fn check_parents_precede<B>(records: &[NodeRecord<B>]) -> (b: bool)
    ensures
        b == parents_precede(records_view(records@)),
{
    let mut i: usize = 0;
    while i < records.len()
        invariant
            i <= records.len(),
            forall|k: int| 0 <= k < i ==> match #[trigger] records_view(records@)[k].parent {
                Some(p) => p < k,
                None => true,
            },
        decreases records.len() - i,
    {
        match records[i].parent {
            Some(p) => {
                if p >= i {
                    assert(records_view(records@)[i as int].parent == Some(p));
                    return false;
                }
            },
            None => {},
        }
        i = i + 1;
    }
    true
}

/// Assembles flat, prepaint-ordered records into the nested tree the protocol exposes.
/// `visible[i]` says whether record `i` intersects the window's viewport.
pub fn assemble_tree<B: Copy>(records: &[NodeRecord<B>], visible: &[bool], viewport: B) -> (t: TreeNode<B>)
    requires
        visible.len() == records.len(),
        parents_precede(records_view(records@)),
    ensures
        t@ == window_tree(records_view(records@), visible@, viewport),
{
    let ghost recs = records_view(records@);
    let mut roots: Vec<TreeNode<B>> = Vec::new();
    let mut j: usize = 0;
    assert(nodes_view(roots@) =~= Seq::<TreeNodeView<B>>::empty());
    while j < records.len()
        invariant
            j <= records.len(),
            visible.len() == records.len(),
            recs == records_view(records@),
            nodes_view(roots@) + roots_from(recs, visible@, j as int) == roots_from(recs, visible@, 0),
        decreases records.len() - j,
    {
        let ghost before = nodes_view(roots@);
        assert(recs[j as int] == records@[j as int]@);
        if records[j].parent.is_none() {
            let c = build_subtree(records, visible, j);
            proof {
                lemma_nodes_view_push(roots@, c);
            }
            roots.push(c);
            assert(nodes_view(roots@) + roots_from(recs, visible@, j + 1)
                =~= before + roots_from(recs, visible@, j as int));
        }
        j = j + 1;
    }
    assert(nodes_view(roots@) =~= roots_from(recs, visible@, 0));
    let t = TreeNode {
        id: None,
        kind: "window".to_string(),
        text: None,
        bounds: viewport,
        visible: true,
        enabled: true,
        focused: false,
        interactive: false,
        children: roots,
    };
    t
}

/// A copy of a record.
pub fn clone_record<B: Copy>(r: &NodeRecord<B>) -> (c: NodeRecord<B>)
    ensures
        c@ == r@,
{
    NodeRecord {
        id: r.id.clone(),
        kind: r.kind.clone(),
        text: clone_text(&r.text),
        bounds: r.bounds,
        parent: r.parent,
        interactive: r.interactive,
    }
}

/// A copy of a sequence of records.
pub fn clone_records<B: Copy>(v: &Vec<NodeRecord<B>>) -> (c: Vec<NodeRecord<B>>)
    ensures
        records_view(c@) == records_view(v@),
{
    let mut c: Vec<NodeRecord<B>> = Vec::new();
    let mut i: usize = 0;
    while i < v.len()
        invariant
            i <= v.len(),
            records_view(c@) =~= records_view(v@).subrange(0, i as int),
        decreases v.len() - i,
    {
        let r = clone_record(&v[i]);
        let ghost before = c@;
        c.push(r);
        assert(records_view(c@) =~= records_view(before).push(r@));
        assert(records_view(v@).subrange(0, i + 1) =~= records_view(v@).subrange(0, i as int).push(v@[i as int]@));
        i = i + 1;
    }
    assert(records_view(v@).subrange(0, v.len() as int) =~= records_view(v@));
    c
}

} // verus!
