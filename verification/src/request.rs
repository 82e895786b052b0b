//! The RPC request each CLI command sends: its method and its `params` object.

use vstd::prelude::*;
use crate::json::{
    json_array, json_empty_object, json_from_array, json_from_u64, json_is_null, json_is_object, json_member,
    json_null, json_set, json_string, json_text, json_unsigned,
};
use crate::text::owned;

verus! {

/// A CLI command that is one RPC request. (`list` sends none; `scroll`, whose deltas
/// are floats, is built by the caller.)
pub enum CommandRequest {
    Info,
    Windows,
    Tree { window: u64 },
    Click { id: String, window: u64, button: String, modifiers: Vec<String> },
    Screenshot { window: u64 },
    WaitIdle { timeout: u64, quiet: u64, window: u64 },
    TypeText { text: String, window: u64 },
    Key { combo: String, window: u64 },
    Focus { id: String, window: u64 },
    Query { text_contains: Option<String>, id_contains: Option<String>, window: u64 },
}

/// A parameter value as built.
pub enum FieldValue {
    Unsigned(u64),
    Text(String),
    Texts(Vec<String>),
    Null,
}

/// What a parameter value must be in the JSON object.
pub enum JsonField {
    Unsigned(u64),
    Text(Seq<char>),
    Texts(Seq<Seq<char>>),
    Null,
}

/// The texts of a list of strings.
pub open spec fn texts_of(v: Seq<String>) -> Seq<Seq<char>> {
    v.map_values(|s: String| s@)
}

/// The requirement a built parameter value stands for.
pub open spec fn field_of(f: FieldValue) -> JsonField {
    match f {
        FieldValue::Unsigned(n) => JsonField::Unsigned(n),
        FieldValue::Text(s) => JsonField::Text(s@),
        FieldValue::Texts(v) => JsonField::Texts(texts_of(v@)),
        FieldValue::Null => JsonField::Null,
    }
}

/// `m` is the JSON value `f` describes: a number, a string, an array of strings, or `null`.
pub open spec fn field_holds(m: serde_json::Value, f: JsonField) -> bool {
    match f {
        JsonField::Unsigned(n) => json_unsigned(m) == Some(n),
        JsonField::Text(t) => json_text(m) == Some(t),
        JsonField::Texts(ts) => json_array(m) matches Some(items) && items.len() == ts.len() && forall|i: int|
            0 <= i < ts.len() ==> json_text(#[trigger] items[i]) == Some(ts[i]),
        JsonField::Null => json_is_null(m),
    }
}

/// Whether `k` is one of the keys of `fields`.
pub open spec fn has_key(fields: Seq<(Seq<char>, JsonField)>, k: Seq<char>) -> bool {
    exists|i: int| 0 <= i < fields.len() && #[trigger] fields[i].0 == k
}

/// `v` is the object with exactly the members `fields`.
pub open spec fn fields_hold(v: serde_json::Value, fields: Seq<(Seq<char>, JsonField)>) -> bool {
    &&& json_is_object(v)
    &&& forall|i: int| 0 <= i < fields.len() ==> (json_member(v, #[trigger] fields[i].0) matches Some(m) && field_holds(
        m,
        fields[i].1,
    ))
    &&& forall|k: Seq<char>| !has_key(fields, k) ==> #[trigger] json_member(v, k) is None
}

/// No key occurs twice.
pub open spec fn keys_distinct(fields: Seq<(Seq<char>, JsonField)>) -> bool {
    forall|i: int, j: int| 0 <= i < fields.len() && 0 <= j < fields.len() && i != j ==> #[trigger] fields[i].0 != #[trigger] fields[j].0
}

/// The requirements of a list of built fields.
pub open spec fn fields_of(v: Seq<(String, FieldValue)>) -> Seq<(Seq<char>, JsonField)> {
    v.map_values(|p: (String, FieldValue)| (p.0@, field_of(p.1)))
}

/// The JSON value of one parameter.
pub fn field_json(f: FieldValue) -> (m: serde_json::Value)
    ensures
        field_holds(m, field_of(f)),
{
    match f {
        FieldValue::Unsigned(n) => json_from_u64(n),
        FieldValue::Text(s) => json_string(s),
        FieldValue::Null => json_null(),
        FieldValue::Texts(v) => {
            let ghost all = v@;
            let mut items: Vec<serde_json::Value> = Vec::new();
            let mut i: usize = 0;
            while i < v.len()
                invariant
                    v@ == all,
                    i <= v.len(),
                    items.len() == i,
                    forall|j: int| 0 <= j < i ==> json_text(#[trigger] items@[j]) == Some(all[j]@),
                decreases v.len() - i,
            {
                let s = owned(v[i].as_str());
                items.push(json_string(s));
                i = i + 1;
            }
            let ghost made = items@;
            let m = json_from_array(items);
            assert(json_array(m) == Some(made));
            assert forall|j: int| 0 <= j < all.len() implies json_text(#[trigger] made[j]) == Some(texts_of(all)[j]) by {}
            m
        },
    }
}

/// The object whose members are exactly `fields`.
pub fn object_of(fields: Vec<(String, FieldValue)>) -> (v: serde_json::Value)
    requires
        keys_distinct(fields_of(fields@)),
    ensures
        fields_hold(v, fields_of(fields@)),
{
    let ghost all = fields_of(fields@);
    let ghost n = fields.len() as int;
    let mut rest = fields;
    let mut v = json_empty_object();
    assert(rest@.subrange(0, rest.len() as int) =~= rest@);
    while rest.len() > 0
        invariant
            rest.len() <= n,
            n == all.len(),
            keys_distinct(all),
            forall|j: int| 0 <= j < rest.len() ==> #[trigger] fields_of(rest@)[j] == all[j],
            json_is_object(v),
            forall|j: int| rest.len() <= j < n ==> (json_member(v, #[trigger] all[j].0) matches Some(m) && field_holds(
                m,
                all[j].1,
            )),
            forall|k: Seq<char>|
                (forall|j: int| rest.len() <= j < n ==> #[trigger] all[j].0 != k) ==> #[trigger] json_member(v, k) is None,
        decreases rest.len(),
    {
        let ghost before = rest@;
        let ghost r = rest.len() - 1;
        let (key, f) = rest.pop().unwrap();
        assert(before == rest@.push((key, f)));
        assert(fields_of(before)[r] == all[r]);
        assert forall|j: int| 0 <= j < rest.len() implies #[trigger] fields_of(rest@)[j] == all[j] by {
            assert(fields_of(before)[j] == all[j]);
            assert(rest@[j] == before[j]);
        }
        let ghost old_v = v;
        let m = field_json(f);
        json_set(&mut v, key.as_str(), m);
        assert forall|j: int| r <= j < n implies (json_member(v, #[trigger] all[j].0) matches Some(mm) && field_holds(
            mm,
            all[j].1,
        )) by {
            if j > r {
                assert(all[j].0 != all[r].0);
                assert(json_member(v, all[j].0) == json_member(old_v, all[j].0));
            }
        }
        assert forall|k: Seq<char>| (forall|j: int| r <= j < n ==> #[trigger] all[j].0 != k) implies #[trigger] json_member(
            v,
            k,
        ) is None by {
            assert(all[r].0 != k);
            assert(json_member(v, k) == json_member(old_v, k));
        }
    }
    assert forall|k: Seq<char>| !has_key(all, k) implies #[trigger] json_member(v, k) is None by {
        assert forall|j: int| 0 <= j < n implies #[trigger] all[j].0 != k by {
            if all[j].0 == k {
                assert(has_key(all, k));
            }
        }
    }
    v
}

/// The RPC method a command calls.
pub open spec fn request_method(cmd: CommandRequest) -> Seq<char> {
    match cmd {
        CommandRequest::Info => "info"@,
        CommandRequest::Windows => "windows"@,
        CommandRequest::Tree { .. } => "tree"@,
        CommandRequest::Click { .. } => "click"@,
        CommandRequest::Screenshot { .. } => "screenshot"@,
        CommandRequest::WaitIdle { .. } => "wait_idle"@,
        CommandRequest::TypeText { .. } => "type_text"@,
        CommandRequest::Key { .. } => "key"@,
        CommandRequest::Focus { .. } => "focus"@,
        CommandRequest::Query { .. } => "query"@,
    }
}

/// An optional string parameter: the string, or `null`.
pub open spec fn optional_text(s: Option<String>) -> JsonField {
    match s {
        Some(t) => JsonField::Text(t@),
        None => JsonField::Null,
    }
}

/// The members of a command's `params` (the token is added when the call is made).
pub open spec fn request_fields(cmd: CommandRequest) -> Seq<(Seq<char>, JsonField)> {
    match cmd {
        CommandRequest::Info => Seq::empty(),
        CommandRequest::Windows => Seq::empty(),
        CommandRequest::Tree { window } => seq![("window_id"@, JsonField::Unsigned(window))],
        CommandRequest::Click { id, window, button, modifiers } => seq![
            ("window_id"@, JsonField::Unsigned(window)),
            ("id"@, JsonField::Text(id@)),
            ("button"@, JsonField::Text(button@)),
            ("modifiers"@, JsonField::Texts(texts_of(modifiers@))),
        ],
        CommandRequest::Screenshot { window } => seq![("window_id"@, JsonField::Unsigned(window))],
        CommandRequest::WaitIdle { timeout, quiet, window } => seq![
            ("window_id"@, JsonField::Unsigned(window)),
            ("timeout_ms"@, JsonField::Unsigned(timeout)),
            ("quiet_ms"@, JsonField::Unsigned(quiet)),
        ],
        CommandRequest::TypeText { text, window } => seq![
            ("window_id"@, JsonField::Unsigned(window)),
            ("text"@, JsonField::Text(text@)),
        ],
        CommandRequest::Key { combo, window } => seq![
            ("window_id"@, JsonField::Unsigned(window)),
            ("combo"@, JsonField::Text(combo@)),
        ],
        CommandRequest::Focus { id, window } => seq![
            ("window_id"@, JsonField::Unsigned(window)),
            ("id"@, JsonField::Text(id@)),
        ],
        CommandRequest::Query { text_contains, id_contains, window } => seq![
            ("window_id"@, JsonField::Unsigned(window)),
            ("text_contains"@, optional_text(text_contains)),
            ("id_contains"@, optional_text(id_contains)),
        ],
    }
}

proof fn lemma_key_names()
    ensures
        "window_id"@.len() == 9 && "window_id"@[0] == 'w',
        "id"@.len() == 2,
        "button"@.len() == 6,
        "modifiers"@.len() == 9 && "modifiers"@[0] == 'm',
        "timeout_ms"@.len() == 10,
        "quiet_ms"@.len() == 8,
        "text"@.len() == 4,
        "combo"@.len() == 5,
        "text_contains"@.len() == 13,
        "id_contains"@.len() == 11,
{
    reveal_strlit("window_id");
    reveal_strlit("id");
    reveal_strlit("button");
    reveal_strlit("modifiers");
    reveal_strlit("timeout_ms");
    reveal_strlit("quiet_ms");
    reveal_strlit("text");
    reveal_strlit("combo");
    reveal_strlit("text_contains");
    reveal_strlit("id_contains");
}

/// Appends the field `key` = `f` to a list of built fields.
fn push_field(fields: &mut Vec<(String, FieldValue)>, key: &str, f: FieldValue)
    ensures
        fields_of(final(fields)@) == fields_of(old(fields)@).push((key@, field_of(f))),
{
    let ghost before = fields@;
    fields.push((owned(key), f));
    assert(fields_of(fields@) =~= fields_of(before).push((key@, field_of(f))));
}

/// An optional string parameter as built.
fn optional_field(s: Option<String>) -> (f: FieldValue)
    ensures
        field_of(f) == optional_text(s),
{
    match s {
        Some(t) => FieldValue::Text(t),
        None => FieldValue::Null,
    }
}

/// The method and `params` object a command sends.
pub fn request_for(cmd: CommandRequest) -> (r: (String, serde_json::Value))
    ensures
        r.0@ == request_method(cmd),
        fields_hold(r.1, request_fields(cmd)),
{
    proof {
        lemma_key_names();
    }
    let ghost spec_cmd = cmd;
    let mut fields: Vec<(String, FieldValue)> = Vec::new();
    assert(fields_of(fields@) =~= Seq::<(Seq<char>, JsonField)>::empty());
    let method = match cmd {
        CommandRequest::Info => owned("info"),
        CommandRequest::Windows => owned("windows"),
        CommandRequest::Tree { window } => {
            push_field(&mut fields, "window_id", FieldValue::Unsigned(window));
            owned("tree")
        },
        CommandRequest::Click { id, window, button, modifiers } => {
            push_field(&mut fields, "window_id", FieldValue::Unsigned(window));
            push_field(&mut fields, "id", FieldValue::Text(id));
            push_field(&mut fields, "button", FieldValue::Text(button));
            push_field(&mut fields, "modifiers", FieldValue::Texts(modifiers));
            owned("click")
        },
        CommandRequest::Screenshot { window } => {
            push_field(&mut fields, "window_id", FieldValue::Unsigned(window));
            owned("screenshot")
        },
        CommandRequest::WaitIdle { timeout, quiet, window } => {
            push_field(&mut fields, "window_id", FieldValue::Unsigned(window));
            push_field(&mut fields, "timeout_ms", FieldValue::Unsigned(timeout));
            push_field(&mut fields, "quiet_ms", FieldValue::Unsigned(quiet));
            owned("wait_idle")
        },
        CommandRequest::TypeText { text, window } => {
            push_field(&mut fields, "window_id", FieldValue::Unsigned(window));
            push_field(&mut fields, "text", FieldValue::Text(text));
            owned("type_text")
        },
        CommandRequest::Key { combo, window } => {
            push_field(&mut fields, "window_id", FieldValue::Unsigned(window));
            push_field(&mut fields, "combo", FieldValue::Text(combo));
            owned("key")
        },
        CommandRequest::Focus { id, window } => {
            push_field(&mut fields, "window_id", FieldValue::Unsigned(window));
            push_field(&mut fields, "id", FieldValue::Text(id));
            owned("focus")
        },
        CommandRequest::Query { text_contains, id_contains, window } => {
            push_field(&mut fields, "window_id", FieldValue::Unsigned(window));
            push_field(&mut fields, "text_contains", optional_field(text_contains));
            push_field(&mut fields, "id_contains", optional_field(id_contains));
            owned("query")
        },
    };
    assert(fields_of(fields@) =~= request_fields(spec_cmd));
    let params = object_of(fields);
    (method, params)
}

} // verus!
