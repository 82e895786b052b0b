//! The lines the CLI prints in human-readable mode, built from RPC results.
//! A missing member prints as `null`, as indexing a JSON value does.

use vstd::prelude::*;
use vstd::string::*;
use crate::json::{json_array, json_as_array, json_as_bool, json_bool, json_display, json_get, json_member, json_rendering, get_text_member, text_member,
    json_empty_object, json_from_array, json_from_bool, json_from_u64, json_is_object, json_pretty, json_pretty_rendering, json_set, json_string, json_unsigned};
use crate::cli::{CliError, Discovered, describe_text, kind_label_text};
use crate::json::{json_is_null, json_null, member_or_null};
use crate::protocol::DiscoveryFile;
use crate::text::{debug_quoted, debug_text, decimal, decimal_string, owned};

verus! {

/// How member `key` of `v` prints: its JSON text, or `null` when absent.
pub open spec fn member_shown(v: serde_json::Value, key: Seq<char>) -> Seq<char> {
    match json_member(v, key) {
        Some(m) => json_rendering(m),
        None => "null"@,
    }
}

/// The string member `key` of `v`, or `default`.
pub open spec fn text_or(v: serde_json::Value, key: Seq<char>, default: Seq<char>) -> Seq<char> {
    match text_member(v, key) {
        Some(t) => t,
        None => default,
    }
}

/// `[x,y wxh]` of member `key`'s bounds, each number as JSON text.
pub open spec fn bounds_shown(v: serde_json::Value, key: Seq<char>) -> Seq<char> {
    match json_member(v, key) {
        Some(b) => "["@ + member_shown(b, "x"@) + ","@ + member_shown(b, "y"@) + " "@ + member_shown(b, "w"@) + "x"@
            + member_shown(b, "h"@) + "]"@,
        None => "[null,null nullxnull]"@,
    }
}

fn show_member(v: &serde_json::Value, key: &str) -> (s: String)
    ensures
        s@ == member_shown(*v, key@),
{
    match json_get(v, key) {
        Some(m) => json_display(m),
        None => owned("null"),
    }
}

fn show_text_or(v: &serde_json::Value, key: &str, default: &str) -> (s: String)
    ensures
        s@ == text_or(*v, key@, default@),
{
    match get_text_member(v, key) {
        Some(t) => t,
        None => owned(default),
    }
}

fn show_bounds(v: &serde_json::Value, key: &str) -> (s: String)
    ensures
        s@ == bounds_shown(*v, key@),
{
    match json_get(v, key) {
        Some(b) => {
            let mut s = owned("[");
            let x = show_member(b, "x");
            s.append(x.as_str());
            s.append(",");
            let y = show_member(b, "y");
            s.append(y.as_str());
            s.append(" ");
            let w = show_member(b, "w");
            s.append(w.as_str());
            s.append("x");
            let h = show_member(b, "h");
            s.append(h.as_str());
            s.append("]");
            s
        },
        None => owned("[null,null nullxnull]"),
    }
}

/// `name version (protocol vN, gpui-driver V)`, with `?` for missing texts.
pub open spec fn info_text(r: serde_json::Value) -> Seq<char> {
    text_or(r, "app_name"@, "?"@) + " "@ + text_or(r, "app_version"@, "?"@) + " (protocol v"@ + member_shown(
        r,
        "protocol_version"@,
    ) + ", gpui-driver "@ + text_or(r, "gpui_driver_version"@, "?"@) + ")"@
}

/// The line for an `info` result.
pub fn info_line(result: &serde_json::Value) -> (s: String)
    ensures
        s@ == info_text(*result),
{
    let mut s = show_text_or(result, "app_name", "?");
    s.append(" ");
    let v = show_text_or(result, "app_version", "?");
    s.append(v.as_str());
    s.append(" (protocol v");
    let p = show_member(result, "protocol_version");
    s.append(p.as_str());
    s.append(", gpui-driver ");
    let d = show_text_or(result, "gpui_driver_version", "?");
    s.append(d.as_str());
    s.append(")");
    s
}

/// `window ID\t"title"\t[x,y wxh]`, with ` (active)` for the active window.
pub open spec fn window_text(w: serde_json::Value) -> Seq<char> {
    let active = match json_member(w, "active"@) {
        Some(a) => json_bool(a) == Some(true),
        None => false,
    };
    "window "@ + member_shown(w, "window_id"@) + "\t"@ + debug_text(text_or(w, "title"@, ""@)) + "\t"@
        + bounds_shown(w, "bounds"@) + if active {
        " (active)"@
    } else {
        Seq::empty()
    }
}

fn window_line(w: &serde_json::Value) -> (s: String)
    ensures
        s@ == window_text(*w),
{
    let mut s = owned("window ");
    let id = show_member(w, "window_id");
    s.append(id.as_str());
    s.append("\t");
    let title = show_text_or(w, "title", "");
    let q = debug_quoted(title.as_str());
    s.append(q.as_str());
    s.append("\t");
    let b = show_bounds(w, "bounds");
    s.append(b.as_str());
    let active = match json_get(w, "active") {
        Some(a) => match json_as_bool(a) {
            Some(true) => true,
            _ => false,
        },
        None => false,
    };
    let ghost before = s@;
    if active {
        s.append(" (active)");
    }
    assert(s@ =~= window_text(*w));
    s
}

/// The elements of the array member `key` of `v`; none if it is absent or not an array.
pub open spec fn listed(v: serde_json::Value, key: Seq<char>) -> Seq<serde_json::Value> {
    match json_member(v, key) {
        Some(a) => match json_array(a) {
            Some(items) => items,
            None => Seq::empty(),
        },
        None => Seq::empty(),
    }
}

fn items_of(v: &serde_json::Value, key: &str) -> (items: Vec<serde_json::Value>)
    ensures
        items@ == listed(*v, key@),
{
    match json_get(v, key) {
        Some(a) => match json_as_array(a) {
            Some(items) => items,
            None => Vec::new(),
        },
        None => Vec::new(),
    }
}

/// One line per window of a `windows` result.
pub fn window_lines(result: &serde_json::Value) -> (lines: Vec<String>)
    ensures
        lines.len() == listed(*result, "windows"@).len(),
        forall|i: int| 0 <= i < lines.len() ==> #[trigger] lines@[i]@ == window_text(listed(*result, "windows"@)[i]),
{
    let items = items_of(result, "windows");
    let mut lines: Vec<String> = Vec::new();
    let mut i: usize = 0;
    while i < items.len()
        invariant
            items@ == listed(*result, "windows"@),
            i <= items.len(),
            lines.len() == i,
            forall|k: int| 0 <= k < i ==> #[trigger] lines@[k]@ == window_text(items@[k]),
        decreases items.len() - i,
    {
        let l = window_line(&items[i]);
        lines.push(l);
        i = i + 1;
    }
    lines
}

/// `id <kind> "text" [x,y wxh]`, with `(anonymous)` and `?` for missing id and kind.
pub open spec fn match_text(m: serde_json::Value) -> Seq<char> {
    let text = match text_member(m, "text"@) {
        Some(t) => " "@ + debug_text(t),
        None => Seq::empty(),
    };
    text_or(m, "id"@, "(anonymous)"@) + " <"@ + text_or(m, "kind"@, "?"@) + ">"@ + text + " "@ + bounds_shown(m, "bounds"@)
}

fn match_line(m: &serde_json::Value) -> (s: String)
    ensures
        s@ == match_text(*m),
{
    let mut s = show_text_or(m, "id", "(anonymous)");
    s.append(" <");
    let k = show_text_or(m, "kind", "?");
    s.append(k.as_str());
    s.append(">");
    match get_text_member(m, "text") {
        Some(t) => {
            s.append(" ");
            let q = debug_quoted(t.as_str());
            s.append(q.as_str());
        },
        None => {},
    }
    s.append(" ");
    let b = show_bounds(m, "bounds");
    s.append(b.as_str());
    assert(s@ =~= match_text(*m));
    s
}

/// One line per match of a `query` result.
pub fn query_lines(result: &serde_json::Value) -> (lines: Vec<String>)
    ensures
        lines.len() == listed(*result, "matches"@).len(),
        forall|i: int| 0 <= i < lines.len() ==> #[trigger] lines@[i]@ == match_text(listed(*result, "matches"@)[i]),
{
    let items = items_of(result, "matches");
    let mut lines: Vec<String> = Vec::new();
    let mut i: usize = 0;
    while i < items.len()
        invariant
            items@ == listed(*result, "matches"@),
            i <= items.len(),
            lines.len() == i,
            forall|k: int| 0 <= k < i ==> #[trigger] lines@[k]@ == match_text(items@[k]),
        decreases items.len() - i,
    {
        let l = match_line(&items[i]);
        lines.push(l);
        i = i + 1;
    }
    lines
}

/// The line for a `click` result whose resolved bounds render as `bounds` (whole
/// pixels, `[x,y wxh]`, as in the tree listing).
pub fn click_line(id: &str, bounds: &str) -> (s: String)
    ensures
        s@ == "clicked "@ + id@ + " at center of "@ + bounds@,
{
    let mut s = owned("clicked ");
    s.append(id);
    s.append(" at center of ");
    s.append(bounds);
    s
}

/// The line for a `wait_idle` result.
pub fn idle_line(result: &serde_json::Value) -> (s: String)
    ensures
        s@ == "idle after "@ + member_shown(*result, "waited_ms"@) + " ms"@,
{
    let mut s = owned("idle after ");
    let w = show_member(result, "waited_ms");
    s.append(w.as_str());
    s.append(" ms");
    s
}

/// The line after typing `text`.
pub fn typed_line(text: &str) -> (s: String)
    ensures
        s@ == "typed "@ + debug_text(text@),
{
    let mut s = owned("typed ");
    let q = debug_quoted(text);
    s.append(q.as_str());
    s
}

/// A fixed prefix followed by a word: `sent ctrl-s`, `scrolled list`, `focused name`.
pub fn action_line(verb: &str, what: &str) -> (s: String)
    ensures
        s@ == verb@ + " "@ + what@,
{
    let mut s = owned(verb);
    s.append(" ");
    s.append(what);
    s
}

/// The line after writing a screenshot to `path`: its size from the result and its
/// scale factor, already rendered as text (`1` for a scale of one).
pub open spec fn screenshot_text(path: Seq<char>, r: serde_json::Value, scale: Seq<char>) -> Seq<char> {
    "wrote "@ + path + " ("@ + member_shown(r, "width"@) + "x"@ + member_shown(r, "height"@) + ", scale "@ + scale + ")"@
}

/// The line after writing a screenshot.
pub fn screenshot_line(path: &str, result: &serde_json::Value, scale: &str) -> (s: String)
    ensures
        s@ == screenshot_text(path@, *result, scale@),
{
    let mut s = owned("wrote ");
    s.append(path);
    s.append(" (");
    let w = show_member(result, "width");
    s.append(w.as_str());
    s.append("x");
    let h = show_member(result, "height");
    s.append(h.as_str());
    s.append(", scale ");
    s.append(scale);
    s.append(")");
    s
}

/// `name\tpid P\tport Q\tstarted T\talive` (or `stale (removed)`).
pub open spec fn listing_text(f: DiscoveryFile, alive: bool) -> Seq<char> {
    f.app_name@ + "\tpid "@ + decimal(f.pid as nat) + "\tport "@ + decimal(f.port as nat) + "\tstarted "@
        + f.started_at@ + "\t"@ + if alive {
        "alive"@
    } else {
        "stale (removed)"@
    }
}

/// The `list` line of one discovered app.
pub fn listing_line(f: &DiscoveryFile, alive: bool) -> (s: String)
    ensures
        s@ == listing_text(*f, alive),
{
    let mut s = f.app_name.clone();
    s.append("\tpid ");
    let p = decimal_string(f.pid as u64);
    s.append(p.as_str());
    s.append("\tport ");
    let q = decimal_string(f.port as u64);
    s.append(q.as_str());
    s.append("\tstarted ");
    s.append(f.started_at.as_str());
    s.append("\t");
    if alive {
        s.append("alive");
    } else {
        s.append("stale (removed)");
    }
    s
}

/// The `list` line when no app was discovered.
pub fn no_apps_line(dir: &str) -> (s: String)
    ensures
        s@ == "no instrumented apps discovered (dir: "@ + dir@ + ")"@,
{
    let mut s = owned("no instrumented apps discovered (dir: ");
    s.append(dir);
    s.append(")");
    s
}

// ---- JSON output ----

/// What `--json` prints for a result: its indented JSON text.
pub fn json_output(result: &serde_json::Value) -> (s: String)
    ensures
        s@ == json_pretty_rendering(*result),
{
    json_pretty(result)
}

/// The members of one app in `list --json`.
pub open spec fn is_listing_key(k: Seq<char>) -> bool {
    k == "app_name"@ || k == "pid"@ || k == "port"@ || k == "started_at"@ || k == "alive"@
}

/// `e` is the `list --json` entry of the discovery file `f` with liveness `alive`:
/// an object with exactly the members `app_name`, `pid`, `port`, `started_at`, `alive`.
pub open spec fn listing_entry_ok(e: serde_json::Value, f: DiscoveryFile, alive: bool) -> bool {
    &&& json_is_object(e)
    &&& text_member(e, "app_name"@) == Some(f.app_name@)
    &&& (json_member(e, "pid"@) matches Some(p) && json_unsigned(p) == Some(f.pid as u64))
    &&& (json_member(e, "port"@) matches Some(p) && json_unsigned(p) == Some(f.port as u64))
    &&& text_member(e, "started_at"@) == Some(f.started_at@)
    &&& (json_member(e, "alive"@) matches Some(a) && json_bool(a) == Some(alive))
    &&& forall|k: Seq<char>| !is_listing_key(k) ==> #[trigger] json_member(e, k) is None
}

/// `v` is the `list --json` value of `apps`: an object whose only member `apps` is
/// the array of their entries, in order.
pub open spec fn listing_value_ok(v: serde_json::Value, apps: Seq<(Discovered, bool)>) -> bool {
    &&& json_is_object(v)
    &&& (json_member(v, "apps"@) matches Some(a) && (json_array(a) matches Some(items) && items.len() == apps.len()
        && forall|i: int| 0 <= i < apps.len() ==> listing_entry_ok(#[trigger] items[i], apps[i].0.file, apps[i].1)))
    &&& forall|k: Seq<char>| k != "apps"@ ==> #[trigger] json_member(v, k) is None
}

/// The `list --json` entry of one discovery file.
pub fn listing_entry(f: &DiscoveryFile, alive: bool) -> (e: serde_json::Value)
    ensures
        listing_entry_ok(e, *f, alive),
{
    proof {
        reveal_strlit("app_name");
        reveal_strlit("pid");
        reveal_strlit("port");
        reveal_strlit("started_at");
        reveal_strlit("alive");
    }
    let mut e = json_empty_object();
    let name = json_string(f.app_name.clone());
    let pid = json_from_u64(f.pid as u64);
    let port = json_from_u64(f.port as u64);
    let started = json_string(f.started_at.clone());
    let live = json_from_bool(alive);
    let ghost e0 = e;
    json_set(&mut e, "app_name", name);
    let ghost e1 = e;
    json_set(&mut e, "pid", pid);
    let ghost e2 = e;
    json_set(&mut e, "port", port);
    let ghost e3 = e;
    json_set(&mut e, "started_at", started);
    let ghost e4 = e;
    json_set(&mut e, "alive", live);
    assert("app_name"@.len() == 8 && "pid"@.len() == 3 && "port"@.len() == 4 && "started_at"@.len() == 10
        && "alive"@.len() == 5);
    assert(json_member(e, "app_name"@) == json_member(e4, "app_name"@));
    assert(json_member(e4, "app_name"@) == json_member(e3, "app_name"@));
    assert(json_member(e3, "app_name"@) == json_member(e2, "app_name"@));
    assert(json_member(e2, "app_name"@) == json_member(e1, "app_name"@));
    assert(json_member(e, "pid"@) == json_member(e4, "pid"@));
    assert(json_member(e4, "pid"@) == json_member(e3, "pid"@));
    assert(json_member(e3, "pid"@) == json_member(e2, "pid"@));
    assert(json_member(e, "port"@) == json_member(e4, "port"@));
    assert(json_member(e4, "port"@) == json_member(e3, "port"@));
    assert(json_member(e, "started_at"@) == json_member(e4, "started_at"@));
    assert forall|k: Seq<char>| !is_listing_key(k) implies #[trigger] json_member(e, k) is None by {
        assert(json_member(e, k) == json_member(e4, k));
        assert(json_member(e4, k) == json_member(e3, k));
        assert(json_member(e3, k) == json_member(e2, k));
        assert(json_member(e2, k) == json_member(e1, k));
        assert(json_member(e1, k) == json_member(e0, k));
    }
    e
}

/// The value `list --json` prints: `{"apps": [...]}`, one entry per app, in order.
pub fn listing_value(apps: &Vec<(Discovered, bool)>) -> (v: serde_json::Value)
    ensures
        listing_value_ok(v, apps@),
{
    let mut items: Vec<serde_json::Value> = Vec::new();
    let mut i: usize = 0;
    while i < apps.len()
        invariant
            i <= apps.len(),
            items.len() == i,
            forall|j: int| 0 <= j < i ==> listing_entry_ok(#[trigger] items@[j], apps@[j].0.file, apps@[j].1),
        decreases apps.len() - i,
    {
        let entry = listing_entry(&apps[i].0.file, apps[i].1);
        items.push(entry);
        i = i + 1;
    }
    let ghost listed = items@;
    let array = json_from_array(items);
    let mut v = json_empty_object();
    json_set(&mut v, "apps", array);
    assert(json_array(array) == Some(listed));
    v
}

/// `v` is the JSON form of a failure: `error` holds its text and `kind` its
/// machine-readable kind (`null` for an RPC error without one); nothing else.
pub open spec fn error_value_ok(v: serde_json::Value, err: CliError) -> bool {
    &&& json_is_object(v)
    &&& text_member(v, "error"@) == Some(describe_text(err))
    &&& match kind_label_text(err) {
        Some(k) => text_member(v, "kind"@) == Some(k),
        None => json_member(v, "kind"@) matches Some(n) && json_is_null(n),
    }
    &&& forall|k: Seq<char>| k != "error"@ && k != "kind"@ ==> #[trigger] json_member(v, k) is None
}

/// The JSON form of a failure, as the CLI prints it in JSON mode.
pub fn error_value(err: &CliError) -> (v: serde_json::Value)
    ensures
        error_value_ok(v, *err),
{
    proof {
        reveal_strlit("error");
        reveal_strlit("kind");
    }
    assert("error"@.len() == 5 && "kind"@.len() == 4);
    let text = json_string(err.describe());
    let kind = match err.kind_label() {
        Some(k) => json_string(k),
        None => json_null(),
    };
    let mut v = json_empty_object();
    let ghost v0 = v;
    json_set(&mut v, "error", text);
    let ghost v1 = v;
    json_set(&mut v, "kind", kind);
    assert(json_member(v, "error"@) == json_member(v1, "error"@));
    assert forall|k: Seq<char>| k != "error"@ && k != "kind"@ implies #[trigger] json_member(v, k) is None by {
        assert(json_member(v, k) == json_member(v1, k));
        assert(json_member(v1, k) == json_member(v0, k));
    }
    v
}

/// The members of the JSON line for a written screenshot.
pub open spec fn is_screenshot_key(k: Seq<char>) -> bool {
    k == "path"@ || k == "width"@ || k == "height"@ || k == "scale"@ || k == "method"@
}

/// The member `key` of `v` copied by `v[key]`: the member itself, or `null`.
pub open spec fn copied_member(r: serde_json::Value, v: serde_json::Value, key: Seq<char>) -> bool {
    match json_member(v, key) {
        Some(m) => json_member(r, key) == Some(m),
        None => json_member(r, key) matches Some(n) && json_is_null(n),
    }
}

/// `v` reports a screenshot written to `path`: the path, the result's `width`,
/// `height` and `scale` (each `null` if absent), and the capture method.
pub open spec fn screenshot_value_ok(v: serde_json::Value, path: Seq<char>, result: serde_json::Value, method: Seq<char>) -> bool {
    &&& json_is_object(v)
    &&& text_member(v, "path"@) == Some(path)
    &&& copied_member(v, result, "width"@)
    &&& copied_member(v, result, "height"@)
    &&& copied_member(v, result, "scale"@)
    &&& text_member(v, "method"@) == Some(method)
    &&& forall|k: Seq<char>| !is_screenshot_key(k) ==> #[trigger] json_member(v, k) is None
}

/// What JSON mode prints after writing a screenshot to `path`.
pub fn screenshot_value(path: &str, result: &serde_json::Value, method: &str) -> (v: serde_json::Value)
    ensures
        screenshot_value_ok(v, path@, *result, method@),
{
    proof {
        reveal_strlit("path");
        reveal_strlit("width");
        reveal_strlit("height");
        reveal_strlit("scale");
        reveal_strlit("method");
    }
    assert("path"@.len() == 4 && "width"@.len() == 5 && "height"@.len() == 6 && "scale"@.len() == 5
        && "method"@.len() == 6);
    assert("width"@[0] == 'w' && "scale"@[0] == 's' && "height"@[0] == 'h' && "method"@[0] == 'm');
    let p = json_string(owned(path));
    let w = member_or_null(result, "width");
    let h = member_or_null(result, "height");
    let sc = member_or_null(result, "scale");
    let m = json_string(owned(method));
    let mut v = json_empty_object();
    let ghost v0 = v;
    json_set(&mut v, "path", p);
    let ghost v1 = v;
    json_set(&mut v, "width", w);
    let ghost v2 = v;
    json_set(&mut v, "height", h);
    let ghost v3 = v;
    json_set(&mut v, "scale", sc);
    let ghost v4 = v;
    json_set(&mut v, "method", m);
    assert(json_member(v, "path"@) == json_member(v4, "path"@));
    assert(json_member(v4, "path"@) == json_member(v3, "path"@));
    assert(json_member(v3, "path"@) == json_member(v2, "path"@));
    assert(json_member(v2, "path"@) == json_member(v1, "path"@));
    assert(json_member(v, "width"@) == json_member(v4, "width"@));
    assert(json_member(v4, "width"@) == json_member(v3, "width"@));
    assert(json_member(v3, "width"@) == json_member(v2, "width"@));
    assert(json_member(v, "height"@) == json_member(v4, "height"@));
    assert(json_member(v4, "height"@) == json_member(v3, "height"@));
    assert(json_member(v, "scale"@) == json_member(v4, "scale"@));
    assert forall|k: Seq<char>| !is_screenshot_key(k) implies #[trigger] json_member(v, k) is None by {
        assert(json_member(v, k) == json_member(v4, k));
        assert(json_member(v4, k) == json_member(v3, k));
        assert(json_member(v3, k) == json_member(v2, k));
        assert(json_member(v2, k) == json_member(v1, k));
        assert(json_member(v1, k) == json_member(v0, k));
    }
    v
}

} // verus!
