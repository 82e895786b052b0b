//! Prepaint nesting: records produced by a stack of in-flight elements, and the
//! proof that the assembled tree lists them, in preorder, in prepaint order.

use vstd::prelude::*;
use crate::tree::{RecordView, TreeNodeView, parents_precede, subtree, children_from, roots_from, window_tree};

verus! {

/// Record `a` is record `j` or one of its ancestors.
pub open spec fn reaches<B>(recs: Seq<RecordView<B>>, j: int, a: int) -> bool
    decreases j,
{
    if j == a {
        true
    } else if j < 0 || j >= recs.len() || j < a {
        false
    } else {
        match recs[j].parent {
            Some(p) => if (p as int) < j {
                reaches(recs, p as int, a)
            } else {
                false
            },
            None => false,
        }
    }
}

/// Each record's parent is the previous record or one of its ancestors: the shape a
/// stack of in-flight prepaints produces.
pub open spec fn nested<B>(recs: Seq<RecordView<B>>) -> bool {
    forall|j: int|
        0 <= j < recs.len() ==> match #[trigger] recs[j].parent {
            Some(p) => j > 0 && reaches(recs, j - 1, p as int),
            None => true,
        }
}

proof fn lemma_reaches_below<B>(recs: Seq<RecordView<B>>, j: int, a: int)
    requires
        reaches(recs, j, a),
    ensures
        a <= j,
        j != a ==> 0 <= a && j < recs.len(),
    decreases j,
{
    if j != a {
        let p = recs[j].parent.unwrap() as int;
        lemma_reaches_below(recs, p, a);
    }
}

pub proof fn lemma_reaches_trans<B>(recs: Seq<RecordView<B>>, x: int, y: int, z: int)
    requires
        reaches(recs, x, y),
        reaches(recs, y, z),
    ensures
        reaches(recs, x, z),
    decreases x,
{
    if x != y {
        let p = recs[x].parent.unwrap() as int;
        lemma_reaches_trans(recs, p, y, z);
        lemma_reaches_below(recs, y, z);
        lemma_reaches_below(recs, x, y);
    }
}

/// Appending a record does not change the ancestry of the earlier ones.
pub proof fn lemma_reaches_push<B>(recs: Seq<RecordView<B>>, x: RecordView<B>, j: int, a: int)
    requires
        j < recs.len(),
    ensures
        reaches(recs.push(x), j, a) == reaches(recs, j, a),
    decreases j,
{
    if j != a && j >= 0 && j >= a {
        match recs[j].parent {
            Some(p) => {
                assert(recs.push(x)[j] == recs[j]);
                if (p as int) < j {
                    lemma_reaches_push(recs, x, p as int, a);
                }
            },
            None => {
                assert(recs.push(x)[j] == recs[j]);
            },
        }
    }
}

/// The ancestors of a record form a chain.
proof fn lemma_reaches_chain<B>(recs: Seq<RecordView<B>>, x: int, a: int, b: int)
    requires
        reaches(recs, x, a),
        reaches(recs, x, b),
    ensures
        reaches(recs, a, b) || reaches(recs, b, a),
    decreases x,
{
    if x != a && x != b {
        let p = recs[x].parent.unwrap() as int;
        lemma_reaches_chain(recs, p, a, b);
    }
}

proof fn lemma_reaches_antisym<B>(recs: Seq<RecordView<B>>, a: int, b: int)
    requires
        reaches(recs, a, b),
        reaches(recs, b, a),
    ensures
        a == b,
{
    lemma_reaches_below(recs, a, b);
    lemma_reaches_below(recs, b, a);
}

/// One step up from a proper descendant stays at or below the ancestor.
proof fn lemma_reaches_step<B>(recs: Seq<RecordView<B>>, x: int, a: int)
    requires
        reaches(recs, x, a),
        x != a,
    ensures
        recs[x].parent matches Some(p) && (p as int) < x && reaches(recs, p as int, a),
{
}

/// The end of record `i`'s span: the first record at or after `j` that is not a
/// descendant of `i` (or the number of records).
pub open spec fn span_end<B>(recs: Seq<RecordView<B>>, i: int, j: int) -> int
    decreases recs.len() - j,
{
    if j >= recs.len() {
        recs.len() as int
    } else if reaches(recs, j, i) {
        span_end(recs, i, j + 1)
    } else {
        j
    }
}

/// The records from `i` up to (excluding) `span(recs, i)` are `i` and its descendants.
pub open spec fn span<B>(recs: Seq<RecordView<B>>, i: int) -> int {
    span_end(recs, i, i + 1)
}

proof fn lemma_span_end_bounds<B>(recs: Seq<RecordView<B>>, i: int, j: int)
    requires
        0 <= j <= recs.len(),
    ensures
        j <= span_end(recs, i, j) <= recs.len(),
        forall|k: int| j <= k < span_end(recs, i, j) ==> reaches(recs, k, i),
        span_end(recs, i, j) < recs.len() ==> !reaches(recs, span_end(recs, i, j), i),
    decreases recs.len() - j,
{
    if j < recs.len() && reaches(recs, j, i) {
        lemma_span_end_bounds(recs, i, j + 1);
    }
}

/// After the span of `i`, no record descends from `i` (spans are contiguous).
proof fn lemma_span_contiguous<B>(recs: Seq<RecordView<B>>, i: int, k: int)
    requires
        nested(recs),
        parents_precede(recs),
        0 <= i < recs.len(),
        span(recs, i) <= k < recs.len(),
    ensures
        !reaches(recs, k, i),
    decreases k,
{
    lemma_span_end_bounds(recs, i, i + 1);
    if k > span(recs, i) {
        lemma_span_contiguous(recs, i, k - 1);
        if reaches(recs, k, i) {
            assert(k != i);
            lemma_reaches_step(recs, k, i);
            let p = recs[k].parent.unwrap() as int;
            assert(reaches(recs, k - 1, p));
            lemma_reaches_trans(recs, k - 1, p, i);
        }
    }
}

/// What a tree node shows of its element, without its children.
pub struct NodeSummary<B> {
    pub id: Option<Seq<char>>,
    pub kind: Seq<char>,
    pub text: Option<Seq<char>>,
    pub bounds: B,
    pub visible: bool,
    pub interactive: bool,
}

pub open spec fn summary<B>(t: TreeNodeView<B>) -> NodeSummary<B> {
    NodeSummary { id: t.id, kind: t.kind, text: t.text, bounds: t.bounds, visible: t.visible, interactive: t.interactive }
}

/// The preorder listing of a node: the node, then each child's listing in order.
pub open spec fn flatten_node<B>(t: TreeNodeView<B>) -> Seq<NodeSummary<B>>
    decreases t, 1int,
{
    seq![summary(t)] + flatten(t.children)
}

/// The preorder listing of a sequence of sibling nodes.
pub open spec fn flatten<B>(s: Seq<TreeNodeView<B>>) -> Seq<NodeSummary<B>>
    decreases s, 0int,
{
    if s.len() == 0 {
        Seq::empty()
    } else {
        flatten_node(s[0]) + flatten(s.drop_first())
    }
}

/// What the tree shows of record `i`.
pub open spec fn record_summary<B>(recs: Seq<RecordView<B>>, vis: Seq<bool>, i: int) -> NodeSummary<B> {
    NodeSummary {
        id: Some(recs[i].id),
        kind: recs[i].kind,
        text: recs[i].text,
        bounds: recs[i].bounds,
        visible: vis[i],
        interactive: recs[i].interactive,
    }
}

/// The summaries of records `from..to`, in record order.
pub open spec fn record_summaries<B>(recs: Seq<RecordView<B>>, vis: Seq<bool>, from: int, to: int) -> Seq<
    NodeSummary<B>,
> {
    Seq::new((to - from) as nat, |k: int| record_summary(recs, vis, from + k))
}

proof fn lemma_flatten_cons<B>(t: TreeNodeView<B>, rest: Seq<TreeNodeView<B>>)
    ensures
        flatten(seq![t] + rest) == flatten_node(t) + flatten(rest),
{
    assert((seq![t] + rest)[0] == t);
    assert((seq![t] + rest).drop_first() =~= rest);
}

proof fn lemma_children_skip<B>(recs: Seq<RecordView<B>>, vis: Seq<bool>, p: int, from: int, to: int)
    requires
        0 <= from <= to,
        forall|k: int| from <= k < to && k < recs.len() ==> recs[k].parent != Some(p as usize),
    ensures
        children_from(recs, vis, p, from) == children_from(recs, vis, p, to),
    decreases to - from,
{
    if from < to {
        lemma_children_skip(recs, vis, p, from + 1, to);
    }
}

proof fn lemma_roots_skip<B>(recs: Seq<RecordView<B>>, vis: Seq<bool>, from: int, to: int)
    requires
        0 <= from <= to,
        forall|k: int| from <= k < to && k < recs.len() ==> recs[k].parent is Some,
    ensures
        roots_from(recs, vis, from) == roots_from(recs, vis, to),
    decreases to - from,
{
    if from < to {
        lemma_roots_skip(recs, vis, from + 1, to);
    }
}

/// The records after the span of `p` have other parents.
proof fn lemma_children_past_span<B>(recs: Seq<RecordView<B>>, vis: Seq<bool>, p: int)
    requires
        recs.len() <= usize::MAX,
        nested(recs),
        parents_precede(recs),
        0 <= p < recs.len(),
    ensures
        children_from(recs, vis, p, span(recs, p)) == Seq::<TreeNodeView<B>>::empty(),
{
    lemma_span_end_bounds(recs, p, p + 1);
    assert forall|k: int| span(recs, p) <= k < recs.len() && k < recs.len() implies recs[k].parent != Some(p as usize) by {
        lemma_span_contiguous(recs, p, k);
        if recs[k].parent == Some(p as usize) {
            assert(recs[k].parent matches Some(q) && (q as int) < k);
            assert(reaches(recs, p, p));
            assert(reaches(recs, k, p));
        }
    }
    lemma_children_skip(recs, vis, p, span(recs, p), recs.len() as int);
}

/// Proper descendants of `c` do not have `p < c` as parent.
proof fn lemma_descendants_skip<B>(recs: Seq<RecordView<B>>, vis: Seq<bool>, p: int, c: int)
    requires
        recs.len() <= usize::MAX,
        parents_precede(recs),
        0 <= p < c < recs.len(),
    ensures
        children_from(recs, vis, p, c + 1) == children_from(recs, vis, p, span(recs, c)),
{
    lemma_span_end_bounds(recs, c, c + 1);
    assert forall|k: int| c + 1 <= k < span(recs, c) && k < recs.len() implies recs[k].parent != Some(p as usize) by {
        assert(reaches(recs, k, c));
        lemma_reaches_step(recs, k, c);
        let q = recs[k].parent.unwrap() as int;
        lemma_reaches_below(recs, q, c);
    }
    lemma_children_skip(recs, vis, p, c + 1, span(recs, c));
}

/// A child's span ends inside its parent's span, either at the parent's end or at the
/// next child of the same parent.
proof fn lemma_next_sibling<B>(recs: Seq<RecordView<B>>, p: int, c: int)
    requires
        recs.len() <= usize::MAX,
        nested(recs),
        parents_precede(recs),
        0 <= p < c < recs.len(),
        recs[c].parent == Some(p as usize),
    ensures
        c < span(recs, c) <= span(recs, p),
        span(recs, c) < span(recs, p) ==> recs[span(recs, c)].parent == Some(p as usize),
{
    lemma_span_end_bounds(recs, c, c + 1);
    lemma_span_end_bounds(recs, p, p + 1);
    let e = span(recs, c);
    assert(reaches(recs, p, p));
    assert(reaches(recs, c, p));
    if c >= span(recs, p) {
        lemma_span_contiguous(recs, p, c);
    }
    if e > span(recs, p) {
        let k = span(recs, p);
        assert(reaches(recs, k, c));
        lemma_reaches_trans(recs, k, c, p);
        lemma_span_contiguous(recs, p, k);
    }
    if e < span(recs, p) {
        assert(reaches(recs, e, p));
        lemma_reaches_below(recs, c, p);
        lemma_reaches_step(recs, e, p);
        let q = recs[e].parent.unwrap() as int;
        assert(reaches(recs, e - 1, q));
        assert(reaches(recs, e - 1, c));
        lemma_reaches_chain(recs, e - 1, q, c);
        if reaches(recs, q, c) {
            assert(reaches(recs, e, c));
        } else if q == c {
            assert(reaches(recs, e, c));
        } else {
            lemma_reaches_step(recs, c, q);
            lemma_reaches_antisym(recs, p, q);
        }
    }
}

/// A root's span ends at the next root (or at the end).
proof fn lemma_next_root<B>(recs: Seq<RecordView<B>>, r: int)
    requires
        nested(recs),
        parents_precede(recs),
        0 <= r < recs.len(),
        recs[r].parent is None,
    ensures
        r < span(recs, r) <= recs.len(),
        span(recs, r) < recs.len() ==> recs[span(recs, r)].parent is None,
{
    lemma_span_end_bounds(recs, r, r + 1);
    let e = span(recs, r);
    if e < recs.len() && recs[e].parent is Some {
        let q = recs[e].parent.unwrap() as int;
        assert(reaches(recs, e - 1, q));
        assert(reaches(recs, e - 1, r));
        lemma_reaches_chain(recs, e - 1, q, r);
        if reaches(recs, q, r) {
            assert(reaches(recs, e, r));
        } else {
            assert(q == r);
            assert(reaches(recs, e, r));
        }
    }
}

proof fn lemma_flatten_subtree<B>(recs: Seq<RecordView<B>>, vis: Seq<bool>, i: int)
    requires
        recs.len() <= usize::MAX,
        nested(recs),
        parents_precede(recs),
        vis.len() == recs.len(),
        0 <= i < recs.len(),
    ensures
        flatten_node(subtree(recs, vis, i)) == record_summaries(recs, vis, i, span(recs, i)),
    decreases recs.len() - i, 0int,
{
    lemma_span_end_bounds(recs, i, i + 1);
    let t = subtree(recs, vis, i);
    if i + 1 < span(recs, i) {
        assert(reaches(recs, i + 1, i));
        lemma_reaches_step(recs, i + 1, i);
        let q = recs[i + 1].parent.unwrap() as int;
        assert(reaches(recs, i, q));
        lemma_reaches_antisym(recs, i, q);
    }
    lemma_flatten_children(recs, vis, i, i + 1);
    assert(flatten_node(t) =~= record_summaries(recs, vis, i, span(recs, i)));
}

proof fn lemma_flatten_children<B>(recs: Seq<RecordView<B>>, vis: Seq<bool>, p: int, from: int)
    requires
        recs.len() <= usize::MAX,
        nested(recs),
        parents_precede(recs),
        vis.len() == recs.len(),
        0 <= p < from <= span(recs, p),
        span(recs, p) <= recs.len(),
        from == span(recs, p) || recs[from].parent == Some(p as usize),
    ensures
        flatten(children_from(recs, vis, p, from)) == record_summaries(recs, vis, from, span(recs, p)),
    decreases recs.len() - from, 1int,
{
    if from == span(recs, p) {
        lemma_children_past_span(recs, vis, p);
        assert(record_summaries(recs, vis, from, span(recs, p)) =~= Seq::<NodeSummary<B>>::empty());
    } else {
        lemma_span_end_bounds(recs, p, p + 1);
        lemma_next_sibling(recs, p, from);
        lemma_descendants_skip(recs, vis, p, from);
        lemma_flatten_subtree(recs, vis, from);
        lemma_flatten_children(recs, vis, p, span(recs, from));
        let st = subtree(recs, vis, from);
        let rest = children_from(recs, vis, p, from + 1);
        assert(children_from(recs, vis, p, from) == seq![st] + rest);
        lemma_flatten_cons(st, rest);
        assert(record_summaries(recs, vis, from, span(recs, p)) =~= record_summaries(recs, vis, from, span(recs, from))
            + record_summaries(recs, vis, span(recs, from), span(recs, p)));
    }
}

proof fn lemma_flatten_roots<B>(recs: Seq<RecordView<B>>, vis: Seq<bool>, from: int)
    requires
        recs.len() <= usize::MAX,
        nested(recs),
        parents_precede(recs),
        vis.len() == recs.len(),
        0 <= from <= recs.len(),
        from == recs.len() || recs[from].parent is None,
    ensures
        flatten(roots_from(recs, vis, from)) == record_summaries(recs, vis, from, recs.len() as int),
    decreases recs.len() - from,
{
    if from == recs.len() {
        assert(record_summaries(recs, vis, from, recs.len() as int) =~= Seq::<NodeSummary<B>>::empty());
    } else {
        lemma_next_root(recs, from);
        lemma_span_end_bounds(recs, from, from + 1);
        assert forall|k: int| from + 1 <= k < span(recs, from) && k < recs.len() implies recs[k].parent is Some by {
            assert(reaches(recs, k, from));
        }
        lemma_roots_skip(recs, vis, from + 1, span(recs, from));
        lemma_flatten_subtree(recs, vis, from);
        lemma_flatten_roots(recs, vis, span(recs, from));
        let st = subtree(recs, vis, from);
        let rest = roots_from(recs, vis, from + 1);
        assert(roots_from(recs, vis, from) == seq![st] + rest);
        lemma_flatten_cons(st, rest);
        assert(record_summaries(recs, vis, from, recs.len() as int) =~= record_summaries(recs, vis, from, span(recs, from))
            + record_summaries(recs, vis, span(recs, from), recs.len() as int));
    }
}

/// Prepaint order is preserved: for records that nest as a stack of in-flight
/// prepaints makes them, the preorder listing of the assembled window tree's children
/// is exactly the records, in record order.
pub proof fn tree_lists_records_in_prepaint_order<B>(recs: Seq<RecordView<B>>, vis: Seq<bool>, viewport: B)
    requires
        recs.len() <= usize::MAX,
        nested(recs),
        parents_precede(recs),
        vis.len() == recs.len(),
    ensures
        flatten(window_tree(recs, vis, viewport).children) == record_summaries(recs, vis, 0, recs.len() as int),
{
    if recs.len() > 0 {
        assert(recs[0].parent is None) by {
            if recs[0].parent is Some {
                assert(recs[0].parent matches Some(p) && (p as int) < 0);
            }
        }
    }
    lemma_flatten_roots(recs, vis, 0);
}

} // verus!
