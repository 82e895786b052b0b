//! Properties that span several operations of the library.

use vstd::prelude::*;
use crate::cli::{CliError, exit_code_of, screenshot_outcome_ok};
use crate::codec::base64_decoded;
use crate::json::{has_text_member_over, text_member};
use crate::protocol::{ErrorKind, RpcRequest, kind_code, kind_wire_name};
use crate::server::request_token;
use crate::registry::Registry;
use crate::tree::window_tree;
use crate::nesting::{flatten, record_summaries, tree_lists_records_in_prepaint_order};
use crate::render::{
    any_interactive, interactive_below, join_lines, kept_line, lemma_full_tree, lemma_kept_tree, render_spec, shown,
    tree_lines,
};
use crate::tree::{RecordView, TreeNodeView, subtree, children_from, roots_from};
use crate::handlers::{ModifierFlags, flags_for, keystroke_text, query_hits, query_matches_record};
use crate::protocol::Modifier;
use crate::text::{contains_text, lowercase};
use crate::cli::{Discovered, selected};
use crate::typename::{
    is_separator, is_tidy_type_name, lemma_scan_plain, lemma_scan_shape, lemma_tidy_fixed, scan_type_name,
    simplified_type_name,
};

verus! {

/// Every request a client prepares carries the client's token, so a driver holding
/// the same token accepts it (see `authorize`): the token written by `begin_call` is
/// the token `authorize` reads back.
pub proof fn prepared_request_carries_token(req: RpcRequest, params: serde_json::Value, token: Seq<char>)
    requires
        has_text_member_over(req.params, params, "token"@, token),
    ensures
        request_token(req) == Some(token),
{
}

/// Distinct error kinds have distinct JSON-RPC codes, all in the application range
/// -32099..=-32000.
pub proof fn error_codes_are_distinct(a: ErrorKind, b: ErrorKind)
    ensures
        kind_code(a) == kind_code(b) ==> a == b,
        -32099 <= kind_code(a) <= -32000,
{
}

/// Distinct error kinds travel under distinct wire names.
pub proof fn error_wire_names_are_distinct(a: ErrorKind, b: ErrorKind)
    ensures
        kind_wire_name(a) == kind_wire_name(b) ==> a == b,
{
    reveal_strlit("element_not_found");
    reveal_strlit("element_not_visible");
    reveal_strlit("window_not_found");
    reveal_strlit("timeout");
    reveal_strlit("unsupported");
    reveal_strlit("auth_failed");
    reveal_strlit("internal");
    if a != b {
        assert(kind_wire_name(a).len() != kind_wire_name(b).len() || kind_wire_name(a)[0] != kind_wire_name(b)[0]
            || kind_wire_name(a)[8] != kind_wire_name(b)[8]);
    }
}

/// A failure never exits with the success code: every failure maps to one of the
/// documented codes 2, 3, 4 or 5.
pub proof fn failures_exit_nonzero(err: CliError)
    ensures
        exit_code_of(err) == 2 || exit_code_of(err) == 3 || exit_code_of(err) == 4 || exit_code_of(err) == 5,
{
}

/// A screenshot survives the trip from driver to disk: when a result's `data_base64`
/// is the text of a payload that decodes to `png` (as `screenshot_payload` makes
/// it), the CLI recovers exactly `png`.
pub proof fn screenshot_round_trip(
    result: serde_json::Value,
    data: Seq<char>,
    png: Seq<u8>,
    r: Result<Vec<u8>, CliError>,
)
    requires
        base64_decoded(data) == Some(png),
        text_member(result, "data_base64"@) == Some(data),
        screenshot_outcome_ok(result, r),
    ensures
        r matches Ok(bytes) && bytes@ == png,
{
}

/// Whatever a window's registry holds, at any point of a collection draw, assembles
/// into a tree whose preorder listing is exactly the records in the order their
/// prepaints ran, each under the element whose prepaint enclosed it.
pub proof fn collected_tree_follows_prepaint_order<B>(reg: Registry<B>, window_id: u64, vis: Seq<bool>, viewport: B)
    requires
        reg.wf(),
        vis.len() == reg.window(window_id).records.len(),
    ensures
        flatten(window_tree(reg.window(window_id).records, vis, viewport).children)
            == record_summaries(reg.window(window_id).records, vis, 0, reg.window(window_id).records.len() as int),
{
    let recs = reg.window(window_id).records;
    assert(crate::registry::window_wf(reg.window(window_id)));
    tree_lists_records_in_prepaint_order(recs, vis, viewport);
}

/// The full rendering of a tree is one line per node, in preorder, each indented two
/// spaces per level; the interactive-only rendering is the subsequence of those same
/// lines (same text, same indentation) that belong to nodes that are interactive or
/// have an interactive descendant.
pub proof fn interactive_only_rendering_keeps_a_subsequence_of_lines(n: TreeNodeView<String>)
    ensures
        render_spec(n, 0, false) == join_lines(tree_lines(n, 0)),
        render_spec(n, 0, true) == join_lines(tree_lines(n, 0).filter(kept_line())),
{
    lemma_full_tree(n, 0);
    lemma_kept_tree(n, 0);
}

proof fn lemma_any_interactive(s: Seq<TreeNodeView<String>>, i: int)
    requires
        0 <= i < s.len(),
        s[i].interactive || interactive_below(s[i]),
    ensures
        any_interactive(s),
    decreases s.len(),
{
    if i < s.len() - 1 {
        assert(s.drop_last()[i] == s[i]);
        lemma_any_interactive(s.drop_last(), i);
    }
}

/// A node kept by the interactive-only rendering keeps its parent: whenever a child is
/// shown, so is the node above it.
pub proof fn interactive_only_keeps_ancestors(n: TreeNodeView<String>, i: int)
    requires
        0 <= i < n.children.len(),
        shown(n.children[i], true),
    ensures
        shown(n, true),
{
    lemma_any_interactive(n.children, i);
}

/// Simplifying a simplified type name changes nothing, and a simplified name has no
/// `:` left.
pub proof fn simplifying_type_names_is_idempotent(full: Seq<char>)
    ensures
        simplified_type_name(simplified_type_name(full)) == simplified_type_name(full),
        forall|i: int| 0 <= i < simplified_type_name(full).len() ==> #[trigger] simplified_type_name(full)[i] != ':',
{
    lemma_scan_shape(full);
    let (o, g) = scan_type_name(full);
    let t = o + g;
    assert forall|i: int| 0 <= i < t.len() implies #[trigger] t[i] != ':' by {
        if i < o.len() {
            assert(t[i] == o[i]);
        } else {
            assert(t[i] == g[i - o.len()]);
        }
    }
    assert forall|i: int| 0 <= i < t.len() && #[trigger] t[i] == ',' implies i + 1 < t.len() && t[i + 1] == ' ' by {
        if i < o.len() {
            assert(t[i] == o[i]);
            assert(t[i + 1] == o[i + 1]);
        } else {
            assert(t[i] == g[i - o.len()]);
        }
    }
    assert forall|i: int| 0 <= i < t.len() && #[trigger] t[i] == ' ' implies i > 0 && t[i - 1] == ',' by {
        if i < o.len() {
            assert(t[i] == o[i]);
            assert(t[i - 1] == o[i - 1]);
        } else {
            assert(t[i] == g[i - o.len()]);
        }
    }
    assert(is_tidy_type_name(t));
    lemma_tidy_fixed(t);
}

/// A name without generics, commas or spaces simplifies to the part after its last
/// `:` (all of it when it has none).
pub proof fn plain_type_names_keep_their_last_segment(full: Seq<char>)
    requires
        forall|i: int| 0 <= i < full.len() ==> !is_separator(#[trigger] full[i]),
    ensures
        exists|k: int|
            0 <= k <= full.len() && (k == 0 || full[k - 1] == ':') && (forall|j: int| k <= j < full.len() ==> #[trigger] full[j] != ':')
                && simplified_type_name(full) == full.subrange(k, full.len() as int),
{
    let k = lemma_scan_plain(full);
    assert(simplified_type_name(full) =~= full.subrange(k, full.len() as int));
}

/// Whether record `r` satisfies every needle given (case-insensitively): its text
/// contains the text needle and its id contains the id needle.
pub open spec fn every_needle_matches<B>(r: RecordView<B>, text: Option<Seq<char>>, id: Option<Seq<char>>) -> bool {
    &&& (text matches Some(t) ==> (r.text matches Some(rt) && contains_text(lowercase(rt), lowercase(t))))
    &&& (id matches Some(n) ==> contains_text(lowercase(r.id), lowercase(n)))
}

proof fn lemma_query_hits<B>(recs: Seq<RecordView<B>>, text: Option<Seq<char>>, id: Option<Seq<char>>, upto: int)
    requires
        0 <= upto <= recs.len(),
        upto <= usize::MAX,
    ensures
        forall|k: int| 0 <= k < query_hits(recs, text, id, upto).len() ==> {
            let h = #[trigger] query_hits(recs, text, id, upto)[k];
            &&& h < upto
            &&& every_needle_matches(recs[h as int], text, id)
        },
        forall|k: int, l: int| 0 <= k < l < query_hits(recs, text, id, upto).len() ==>
            #[trigger] query_hits(recs, text, id, upto)[k] < #[trigger] query_hits(recs, text, id, upto)[l],
        forall|i: int| 0 <= i < upto && every_needle_matches(#[trigger] recs[i], text, id) ==> query_hits(recs, text, id, upto).contains(
            i as usize,
        ),
    decreases upto,
{
    if upto > 0 {
        lemma_query_hits(recs, text, id, upto - 1);
        let prev = query_hits(recs, text, id, upto - 1);
        let hits = query_hits(recs, text, id, upto);
        assert forall|i: int| 0 <= i < upto && every_needle_matches(#[trigger] recs[i], text, id) implies hits.contains(i as usize) by {
            if i < upto - 1 {
                let k = choose|k: int| 0 <= k < prev.len() && prev[k] == i as usize;
                assert(hits[k] == prev[k]);
            } else {
                assert(query_matches_record(recs[i], text, id));
                assert(hits[hits.len() - 1] == i as usize);
            }
        }
    }
}

/// A query's hits are exactly the records, in increasing index order, that satisfy
/// every needle given: with both a text and an id needle, a hit's text contains the
/// text needle and its id contains the id needle (case-insensitively); a record
/// matching only one of them is not a hit.
pub proof fn query_hits_satisfy_every_needle<B>(recs: Seq<RecordView<B>>, text: Option<Seq<char>>, id: Option<Seq<char>>)
    requires
        recs.len() <= usize::MAX,
    ensures
        forall|k: int| 0 <= k < query_hits(recs, text, id, recs.len() as int).len() ==> {
            let h = #[trigger] query_hits(recs, text, id, recs.len() as int)[k];
            &&& h < recs.len()
            &&& (text matches Some(t) ==> (recs[h as int].text matches Some(rt) && contains_text(lowercase(rt), lowercase(t))))
            &&& (id matches Some(n) ==> contains_text(lowercase(recs[h as int].id), lowercase(n)))
        },
        forall|i: int|
            0 <= i < recs.len() && (text matches Some(t) ==> (#[trigger] recs[i].text matches Some(rt) && contains_text(
                lowercase(rt),
                lowercase(t),
            ))) && (id matches Some(n) ==> contains_text(lowercase(recs[i].id), lowercase(n))) ==> query_hits(
                recs,
                text,
                id,
                recs.len() as int,
            ).contains(i as usize),
        forall|k: int, l: int| 0 <= k < l < query_hits(recs, text, id, recs.len() as int).len() ==>
            #[trigger] query_hits(recs, text, id, recs.len() as int)[k] < #[trigger] query_hits(recs, text, id, recs.len() as int)[l],
{
    lemma_query_hits(recs, text, id, recs.len() as int);
    let hits = query_hits(recs, text, id, recs.len() as int);
    assert forall|i: int|
        0 <= i < recs.len() && (text matches Some(t) ==> (#[trigger] recs[i].text matches Some(rt) && contains_text(
            lowercase(rt),
            lowercase(t),
        ))) && (id matches Some(n) ==> contains_text(lowercase(recs[i].id), lowercase(n))) implies hits.contains(i as usize) by {
        assert(every_needle_matches(recs[i], text, id));
    }
}

/// Typing turns each character into the keystroke named by that character itself,
/// unchanged (an upper-case letter stays upper-case), except space, newline, tab and
/// `-`, which become `space`, `enter`, `tab` and `minus`.
pub proof fn keystrokes_name_their_characters(c: char)
    ensures
        c != ' ' && c != '\n' && c != '\t' && c != '-' ==> keystroke_text(c) == seq![c],
        c == ' ' ==> keystroke_text(c) == "space"@,
        c == '\n' ==> keystroke_text(c) == "enter"@,
        c == '\t' ==> keystroke_text(c) == "tab"@,
        c == '-' ==> keystroke_text(c) == "minus"@,
{
}

/// Each modifier flag is set exactly when its own modifier is listed; no modifier
/// sets another's flag.
pub proof fn modifier_flags_are_independent(mods: Seq<Modifier>)
    ensures
        flags_for(mods).control <==> (exists|i: int| 0 <= i < mods.len() && mods[i] == Modifier::Ctrl),
        flags_for(mods).alt <==> (exists|i: int| 0 <= i < mods.len() && mods[i] == Modifier::Alt),
        flags_for(mods).shift <==> (exists|i: int| 0 <= i < mods.len() && mods[i] == Modifier::Shift),
        flags_for(mods).platform <==> (exists|i: int| 0 <= i < mods.len() && mods[i] == Modifier::Cmd),
        flags_for(mods).function <==> (exists|i: int| 0 <= i < mods.len() && mods[i] == Modifier::Fn),
{
}

/// Whether a discovery entry passes `--app` (exact name equality) and `--pid`.
pub open spec fn passes_filters(d: Discovered, app: Option<Seq<char>>, pid: Option<u32>) -> bool {
    &&& (app matches Some(a) ==> d.file.app_name@ == a)
    &&& (pid matches Some(p) ==> d.file.pid == p)
}

/// App selection keeps exactly the entries whose name equals `--app` (not merely
/// contains it) and whose pid equals `--pid`, in their order.
pub proof fn app_filter_matches_names_exactly(s: Seq<Discovered>, app: Option<Seq<char>>, pid: Option<u32>)
    ensures
        selected(s, app, pid) == s.filter(|d: Discovered| passes_filters(d, app, pid)),
        forall|k: int| 0 <= k < selected(s, app, pid).len() ==> (app matches Some(a) ==> #[trigger] selected(s, app, pid)[k].file.app_name@ == a),
    decreases s.len(),
{
    let pred = |d: Discovered| passes_filters(d, app, pid);
    if s.len() == 0 {
        reveal(Seq::filter);
    } else {
        app_filter_matches_names_exactly(s.drop_first(), app, pid);
        assert(s =~= seq![s[0]] + s.drop_first());
        s.drop_first().lemma_filter_prepend(s[0], pred);
        if pred(s[0]) {
            assert(selected(s, app, pid) =~= seq![s[0]] + selected(s.drop_first(), app, pid));
        } else {
            assert(selected(s, app, pid) =~= Seq::<Discovered>::empty() + selected(s.drop_first(), app, pid));
        }
        assert forall|k: int| 0 <= k < selected(s, app, pid).len() implies (app matches Some(a) ==> #[trigger] selected(s, app, pid)[k].file.app_name@ == a) by {
            s.lemma_filter_pred(pred, k);
            assert(pred(s.filter(pred)[k]));
        }
    }
}

proof fn lemma_forest_enabled<B>(recs: Seq<RecordView<B>>, vis: Seq<bool>, p: int, from: int)
    ensures
        forall|k: int| 0 <= k < children_from(recs, vis, p, from).len() ==> {
            let c = #[trigger] children_from(recs, vis, p, from)[k];
            c.enabled && !c.focused
        },
        forall|k: int| 0 <= k < roots_from(recs, vis, from).len() ==> {
            let c = #[trigger] roots_from(recs, vis, from)[k];
            c.enabled && !c.focused
        },
    decreases recs.len() - from,
{
    if 0 <= from < recs.len() {
        lemma_forest_enabled(recs, vis, p, from + 1);
        let c = children_from(recs, vis, p, from);
        let r = roots_from(recs, vis, from);
        assert forall|k: int| 0 <= k < c.len() implies #[trigger] c[k].enabled && !c[k].focused by {
            if recs[from].parent == Some(p as usize) && p >= 0 && k > 0 {
                assert(c[k] == children_from(recs, vis, p, from + 1)[k - 1]);
            }
        }
        assert forall|k: int| 0 <= k < r.len() implies #[trigger] r[k].enabled && !r[k].focused by {
            if recs[from].parent is None && k > 0 {
                assert(r[k] == roots_from(recs, vis, from + 1)[k - 1]);
            }
        }
    }
}

/// Every element node of the assembled tree is enabled and not focused, whatever its
/// visibility; its visibility is the one given for its record; the children of each
/// record node and the window's root nodes are all enabled and not focused too.
pub proof fn record_nodes_are_enabled_whatever_their_visibility<B>(recs: Seq<RecordView<B>>, vis: Seq<bool>, i: int)
    requires
        0 <= i < recs.len(),
        vis.len() == recs.len(),
    ensures
        subtree(recs, vis, i).enabled,
        !subtree(recs, vis, i).focused,
        subtree(recs, vis, i).visible == vis[i],
        subtree(recs, vis, i).id == Some(recs[i].id),
        forall|k: int| 0 <= k < subtree(recs, vis, i).children.len() ==> (#[trigger] subtree(recs, vis, i).children[k]).enabled
            && !subtree(recs, vis, i).children[k].focused,
        forall|k: int| 0 <= k < roots_from(recs, vis, 0).len() ==> (#[trigger] roots_from(recs, vis, 0)[k]).enabled
            && !roots_from(recs, vis, 0)[k].focused,
{
    lemma_forest_enabled(recs, vis, i, i + 1);
    lemma_forest_enabled(recs, vis, i, 0);
}

} // verus!
