//! The JSON values that travel in `params` and `result`, and the few operations on
//! them that the protocol logic needs. Values stay opaque; what the logic relies on is
//! named by the spec functions below.

use vstd::prelude::*;
use crate::text::owned;

verus! {

/// A JSON value as parsed and produced by `serde_json`.
#[verifier::external_type_specification]
#[verifier::external_body]
pub struct ExJsonValue(serde_json::Value);

/// The member `key` of `v` when `v` is an object that has it; `None` otherwise.
pub uninterp spec fn json_member(v: serde_json::Value, key: Seq<char>) -> Option<serde_json::Value>;

/// The text of `v` when `v` is a JSON string; `None` otherwise.
pub uninterp spec fn json_text(v: serde_json::Value) -> Option<Seq<char>>;

/// Whether `v` is a JSON object.
pub uninterp spec fn json_is_object(v: serde_json::Value) -> bool;

/// `serde_json::Value::get` with a string key: the member `key` of an object, and
/// `None` for a missing key or a value that is not an object.
#[verifier::external_body]
pub(crate) fn json_get<'a>(v: &'a serde_json::Value, key: &str) -> (r: Option<&'a serde_json::Value>)
    ensures
        r matches Some(m) ==> json_member(*v, key@) == Some(*m),
        r is None ==> json_member(*v, key@) is None,
{
    v.get(key)
}

/// `serde_json::Value::as_str`: the text of a JSON string, `None` for any other value.
#[verifier::external_body]
pub(crate) fn json_as_str(v: &serde_json::Value) -> (r: Option<&str>)
    ensures
        r matches Some(s) ==> json_text(*v) == Some(s@),
        r is None ==> json_text(*v) is None,
{
    v.as_str()
}

/// `serde_json::Value::is_object`.
#[verifier::external_body]
pub(crate) fn json_object_check(v: &serde_json::Value) -> (b: bool)
    ensures
        b == json_is_object(*v),
{
    v.is_object()
}

/// `serde_json::Value::Object(serde_json::Map::new())`: an object with no members.
#[verifier::external_body]
pub(crate) fn json_empty_object() -> (v: serde_json::Value)
    ensures
        json_is_object(v),
        forall|k: Seq<char>| #[trigger] json_member(v, k) is None,
{
    serde_json::Value::Object(serde_json::Map::new())
}

/// `serde_json::Value::String`: a JSON string holding `s`.
#[verifier::external_body]
pub(crate) fn json_string(s: String) -> (v: serde_json::Value)
    ensures
        json_text(v) == Some(s@),
        !json_is_object(v),
{
    serde_json::Value::String(s)
}

/// `v[key] = member` on an object (`IndexMut<&str>`): inserts or replaces the
/// member, leaving the others as they were.
#[verifier::external_body]
pub(crate) fn json_set(v: &mut serde_json::Value, key: &str, member: serde_json::Value)
    requires
        json_is_object(*old(v)),
    ensures
        json_is_object(*final(v)),
        json_member(*final(v), key@) == Some(member),
        forall|k: Seq<char>| k != key@ ==> #[trigger] json_member(*final(v), k) == json_member(*old(v), k),
{
    v[key] = member;
}

/// The compact JSON text of `v`, as its `Display` implementation writes it.
pub uninterp spec fn json_rendering(v: serde_json::Value) -> Seq<char>;

/// The elements of `v` when `v` is a JSON array; `None` otherwise.
pub uninterp spec fn json_array(v: serde_json::Value) -> Option<Seq<serde_json::Value>>;

/// The boolean of `v` when `v` is a JSON boolean; `None` otherwise.
pub uninterp spec fn json_bool(v: serde_json::Value) -> Option<bool>;

/// `serde_json::Value`'s `Display`: compact JSON text.
#[verifier::external_body]
pub(crate) fn json_display(v: &serde_json::Value) -> (s: String)
    ensures
        s@ == json_rendering(*v),
{
    v.to_string()
}

/// `serde_json::Value::as_array`, with the elements copied out.
#[verifier::external_body]
pub(crate) fn json_as_array(v: &serde_json::Value) -> (r: Option<Vec<serde_json::Value>>)
    ensures
        r matches Some(items) ==> json_array(*v) == Some(items@),
        r is None ==> json_array(*v) is None,
{
    v.as_array().cloned()
}

/// `serde_json::Value::as_bool`.
#[verifier::external_body]
pub(crate) fn json_as_bool(v: &serde_json::Value) -> (r: Option<bool>)
    ensures
        r == json_bool(*v),
{
    v.as_bool()
}

/// The indented JSON text of `v` that `serde_json::to_string_pretty` writes.
pub uninterp spec fn json_pretty_rendering(v: serde_json::Value) -> Seq<char>;

/// `serde_json::to_string_pretty` on a value. Serialising a `Value` cannot fail: its
/// object keys are strings and nothing else it holds refuses to serialise.
#[verifier::external_body]
pub(crate) fn json_pretty(v: &serde_json::Value) -> (s: String)
    ensures
        s@ == json_pretty_rendering(*v),
{
    serde_json::to_string_pretty(v).expect("a JSON value always serialises")
}

/// The integer of `v` when `v` is a JSON number that fits a `u64`; `None` otherwise.
pub uninterp spec fn json_unsigned(v: serde_json::Value) -> Option<u64>;

/// `serde_json::Value::from(u64)`: a JSON number holding `n`.
#[verifier::external_body]
pub(crate) fn json_from_u64(n: u64) -> (v: serde_json::Value)
    ensures
        json_unsigned(v) == Some(n),
{
    serde_json::Value::from(n)
}

/// `serde_json::Value::Bool`.
#[verifier::external_body]
pub(crate) fn json_from_bool(b: bool) -> (v: serde_json::Value)
    ensures
        json_bool(v) == Some(b),
{
    serde_json::Value::Bool(b)
}

/// `serde_json::Value::Array`: a JSON array of `items`, in order.
#[verifier::external_body]
pub(crate) fn json_from_array(items: Vec<serde_json::Value>) -> (v: serde_json::Value)
    ensures
        json_array(v) == Some(items@),
{
    serde_json::Value::Array(items)
}

/// Whether `v` is JSON `null`.
pub uninterp spec fn json_is_null(v: serde_json::Value) -> bool;

/// `serde_json::Value::Null`.
#[verifier::external_body]
pub(crate) fn json_null() -> (v: serde_json::Value)
    ensures
        json_is_null(v),
{
    serde_json::Value::Null
}

/// `Clone` for `serde_json::Value` (derived): a deep copy, equal to the original.
#[verifier::external_body]
pub(crate) fn json_clone(v: &serde_json::Value) -> (r: serde_json::Value)
    ensures
        r == *v,
{
    v.clone()
}

/// `v[key]` by value: the member `key` of an object, and `null` for a missing key or a
/// value that is not an object.
pub fn member_or_null(v: &serde_json::Value, key: &str) -> (r: serde_json::Value)
    ensures
        match json_member(*v, key@) {
            Some(m) => r == m,
            None => json_is_null(r),
        },
{
    match json_get(v, key) {
        Some(m) => json_clone(m),
        None => json_null(),
    }
}

/// The compact JSON text of `v` (its `Display`), as printed on one line.
pub fn json_line(v: &serde_json::Value) -> (s: String)
    ensures
        s@ == json_rendering(*v),
{
    json_display(v)
}

/// The text of the string member `key` of `v`, if `v` is an object with such a member.
pub open spec fn text_member(v: serde_json::Value, key: Seq<char>) -> Option<Seq<char>> {
    match json_member(v, key) {
        Some(m) => json_text(m),
        None => None,
    }
}

/// `v.get(key).and_then(|m| m.as_str())`, as an owned string.
pub fn get_text_member(v: &serde_json::Value, key: &str) -> (r: Option<String>)
    ensures
        r matches Some(s) ==> text_member(*v, key@) == Some(s@),
        r is None ==> text_member(*v, key@) is None,
{
    match json_get(v, key) {
        Some(m) => match json_as_str(m) {
            Some(s) => Some(owned(s)),
            None => None,
        },
        None => None,
    }
}

/// The members of `with_member(v, key, text)`: `key` holds the string `text`; every
/// other member is that of `v` when `v` is an object, and absent otherwise.
pub open spec fn has_text_member_over(
    r: serde_json::Value,
    v: serde_json::Value,
    key: Seq<char>,
    text: Seq<char>,
) -> bool {
    &&& json_is_object(r)
    &&& text_member(r, key) == Some(text)
    &&& forall|k: Seq<char>|
        k != key ==> #[trigger] json_member(r, k) == if json_is_object(v) {
            json_member(v, k)
        } else {
            None
        }
}

/// Replaces a non-object `v` by an empty object, then sets the string member `key`
/// to `text`.
pub fn with_text_member(v: serde_json::Value, key: &str, text: String) -> (r: serde_json::Value)
    ensures
        has_text_member_over(r, v, key@, text@),
{
    let mut params = v;
    if !json_object_check(&params) {
        params = json_empty_object();
    }
    let ghost before = params;
    let member = json_string(text);
    json_set(&mut params, key, member);
    assert forall|k: Seq<char>| k != key@ implies #[trigger] json_member(params, k) == if json_is_object(v) {
        json_member(v, k)
    } else {
        None
    } by {
        assert(json_member(params, k) == json_member(before, k));
    }
    params
}

} // verus!
