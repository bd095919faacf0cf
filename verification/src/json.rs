//! The JSON work this crate hands to `serde_json`: reading a member (or a
//! member of a member) of a document, setting a string member, reading,
//! editing and removing the items of an array member, and writing a
//! document back. Which members are read or set, and with what, the
//! callers decide.
//!
//! What `serde_json` computes is named, not restated: each function below
//! is believed to return the named function of its arguments.
use vstd::prelude::*;

verus! {

/// What a member of a JSON document holds.
pub enum CodeField {
    /// A number that fits in an `i64`.
    Int(i64),
    /// A string.
    Text(String),
    /// Anything else (a fraction, a number beyond `i64`, an object, ...).
    Other,
}

/// The mathematical value of a `CodeField`.
pub enum CodeFieldView {
    Int(i64),
    Text(Seq<char>),
    Other,
}

impl View for CodeField {
    type V = CodeFieldView;

    open spec fn view(&self) -> CodeFieldView {
        match self {
            CodeField::Int(n) => CodeFieldView::Int(*n),
            CodeField::Text(s) => CodeFieldView::Text(s@),
            CodeField::Other => CodeFieldView::Other,
        }
    }
}

/// The value of an optional `CodeField`.
pub open spec fn code_field_view(r: Option<CodeField>) -> Option<CodeFieldView> {
    match r {
        Some(c) => Some(c@),
        None => None,
    }
}

/// What `serde_json::from_slice` makes of `body`, read at the member
/// `inner` of its member `outer`: `None` when `body` is not JSON or has no
/// such member.
pub uninterp spec fn json_scalar_at(body: Seq<u8>, outer: Seq<char>, inner: Seq<char>) -> Option<
    CodeFieldView,
>;

/// What `serde_json::from_str` makes of `text`, read at the member `inner`
/// of its member `outer`: `None` when `text` is not JSON or has no such
/// member.
pub uninterp spec fn json_text_scalar_at(
    text: Seq<char>,
    outer: Seq<char>,
    inner: Seq<char>,
) -> Option<CodeFieldView>;

/// What `serde_json::from_slice` makes of `body`, read at its member
/// `member` as a string: `None` when `body` is not JSON; `Some(None)` when
/// it has no such string member.
pub uninterp spec fn json_string_member(body: Seq<u8>, member: Seq<char>) -> Option<Option<Seq<char>>>;

/// `body` parsed by `serde_json::from_slice` and written back by
/// `serde_json::to_vec`.
pub uninterp spec fn json_reencoded(body: Seq<u8>) -> Seq<u8>;

/// `body` parsed by `serde_json::from_slice`, with its member `member` set
/// to the string `value` when it is an object, and written back by
/// `serde_json::to_vec`.
pub uninterp spec fn json_with_string_member(
    body: Seq<u8>,
    member: Seq<char>,
    value: Seq<char>,
) -> Seq<u8>;

/// Parses `body` with `serde_json::from_slice` and reads the member `inner`
/// of its member `outer` with `Value::get`, `Value::as_i64` and
/// `Value::as_str`. Believed: the result is the named `json_scalar_at` of
/// `body`, `outer` and `inner`.
#[verifier::external_body]
pub(crate) fn scalar_in_json_bytes(body: &[u8], outer: &str, inner: &str) -> (r: Option<CodeField>)
    ensures
        code_field_view(r) == json_scalar_at(body@, outer@, inner@),
{
    let v: serde_json::Value = serde_json::from_slice(body).ok()?;
    let x = v.get(outer)?.get(inner)?;
    match (x.as_i64(), x.as_str()) {
        (Some(n), _) => Some(CodeField::Int(n)),
        (None, Some(s)) => Some(CodeField::Text(s.to_string())),
        (None, None) => Some(CodeField::Other),
    }
}

/// Parses `text` with `serde_json::from_str` and reads the member `inner` of
/// its member `outer` with `Value::get`, `Value::as_i64` and
/// `Value::as_str`. Believed: the result is the named `json_text_scalar_at`
/// of `text`, `outer` and `inner`.
#[verifier::external_body]
pub(crate) fn scalar_in_json_text(text: &Vec<char>, outer: &str, inner: &str) -> (r: Option<
    CodeField,
>)
    ensures
        code_field_view(r) == json_text_scalar_at(text@, outer@, inner@),
{
    let s: String = text.iter().collect();
    let v: serde_json::Value = serde_json::from_str(&s).ok()?;
    let x = v.get(outer)?.get(inner)?;
    match (x.as_i64(), x.as_str()) {
        (Some(n), _) => Some(CodeField::Int(n)),
        (None, Some(s)) => Some(CodeField::Text(s.to_string())),
        (None, None) => Some(CodeField::Other),
    }
}

/// The value of an optional optional string.
pub open spec fn model_field_view(r: Option<Option<String>>) -> Option<Option<Seq<char>>> {
    match r {
        Some(Some(s)) => Some(Some(s@)),
        Some(None) => Some(None),
        None => None,
    }
}

/// Parses `body` with `serde_json::from_slice` and reads its member
/// `member` with `Value::get` and `Value::as_str`. Believed: the result is
/// the named `json_string_member` of `body` and `member`.
#[verifier::external_body]
pub(crate) fn string_member_in_json(body: &[u8], member: &str) -> (r: Option<Option<String>>)
    ensures
        model_field_view(r) == json_string_member(body@, member@),
{
    let v: serde_json::Value = serde_json::from_slice(body).ok()?;
    Some(v.get(member).and_then(|m| m.as_str()).map(|s| s.to_string()))
}

/// Parses `body` with `serde_json::from_slice` and writes it back with
/// `serde_json::to_vec` (the bytes of `body` unchanged where either fails).
/// Believed: the result is the named `json_reencoded` of `body`.
#[verifier::external_body]
pub(crate) fn reencode_json(body: &[u8]) -> (r: Vec<u8>)
    ensures
        r@ == json_reencoded(body@),
{
    match serde_json::from_slice::<serde_json::Value>(body) {
        Ok(v) => serde_json::to_vec(&v).unwrap_or_else(|_| body.to_vec()),
        Err(_) => body.to_vec(),
    }
}

/// Parses `body` with `serde_json::from_slice`, sets its member `member` to
/// the string `value` with `Value::as_object_mut` and `Map::insert` when it
/// is an object, and writes it back with `serde_json::to_vec` (the bytes of
/// `body` unchanged where parsing or writing fails). Believed: the result is
/// the named `json_with_string_member` of `body`, `member` and `value`.
#[verifier::external_body]
pub(crate) fn set_string_member_in_json(body: &[u8], member: &str, value: &str) -> (r: Vec<u8>)
    ensures
        r@ == json_with_string_member(body@, member@, value@),
{
    match serde_json::from_slice::<serde_json::Value>(body) {
        Ok(mut v) => {
            if let Some(obj) = v.as_object_mut() {
                obj.insert(member.to_string(), serde_json::Value::String(value.to_string()));
            }
            serde_json::to_vec(&v).unwrap_or_else(|_| body.to_vec())
        },
        Err(_) => body.to_vec(),
    }
}

// ---------------------------------------------------------------------------
// The items of a request's `input` or `messages` array
// ---------------------------------------------------------------------------

/// What an item's `content` member holds.
pub enum ContentKind {
    /// The item has no `content` member (or is not an object).
    Missing,
    /// A string.
    Text(String),
    /// An array of this many elements.
    Array(usize),
    /// Anything else.
    Other,
}

/// What one item of the array is: `object` is `Some(has_type)` for an
/// object, telling whether it has a `type` member, and `None` otherwise.
pub struct ItemFacts {
    pub object: Option<bool>,
    pub content: ContentKind,
}

/// The mathematical value of a `ContentKind`.
pub enum ContentKindView {
    Missing,
    Text(Seq<char>),
    Array(usize),
    Other,
}

/// The mathematical value of an `ItemFacts`.
pub struct ItemFactsView {
    pub object: Option<bool>,
    pub content: ContentKindView,
}

impl View for ItemFacts {
    type V = ItemFactsView;

    open spec fn view(&self) -> ItemFactsView {
        ItemFactsView {
            object: self.object,
            content: match self.content {
                ContentKind::Missing => ContentKindView::Missing,
                ContentKind::Text(s) => ContentKindView::Text(s@),
                ContentKind::Array(n) => ContentKindView::Array(n),
                ContentKind::Other => ContentKindView::Other,
            },
        }
    }
}

/// The values of a list of items.
pub open spec fn facts_view(v: Seq<ItemFacts>) -> Seq<ItemFactsView> {
    v.map_values(|f: ItemFacts| f@)
}

/// What `serde_json::from_slice` makes of `body`, read as the items of its
/// array member `key`, each read at its members `flag` (present or not) and
/// `content`: `None` when `body` is not JSON or `key` is not an array member
/// of it.
pub uninterp spec fn json_items_of(
    body: Seq<u8>,
    key: Seq<char>,
    flag: Seq<char>,
    content: Seq<char>,
) -> Option<Seq<ItemFactsView>>;

/// How many items `serde_json::from_slice` finds in the array member `key`
/// of `body`: `None` when `body` is not JSON or `key` is not an array
/// member of it.
pub uninterp spec fn json_array_length(body: Seq<u8>, key: Seq<char>) -> Option<nat>;

/// `body` parsed by `serde_json::from_slice`, with the member `member` of
/// item `index` of the array member `key` set to the string `value` when
/// that item is an object, and written back by `serde_json::to_vec`.
pub uninterp spec fn json_with_item_string_member(
    body: Seq<u8>,
    key: Seq<char>,
    index: nat,
    member: Seq<char>,
    value: Seq<char>,
) -> Seq<u8>;

/// `body` parsed by `serde_json::from_slice`, with item `index` of the
/// array member `key` removed, and written back by `serde_json::to_vec`.
pub uninterp spec fn json_without_item(body: Seq<u8>, key: Seq<char>, index: nat) -> Seq<u8>;

/// Parses `body` with `serde_json::from_slice` and reads each item of its
/// array member `key` with `Value::get`, `Value::as_array`,
/// `Value::as_object` and `Map::contains_key` (for the member `flag`),
/// telling the variants of its member `content` apart. Believed: the result
/// is the named `json_items_of` of `body`, `key`, `flag` and `content`.
#[verifier::external_body]
pub(crate) fn item_facts_in_json(body: &[u8], key: &str, flag: &str, content: &str) -> (r: Option<
    Vec<ItemFacts>,
>)
    ensures
        match r {
            Some(v) => json_items_of(body@, key@, flag@, content@) == Some(facts_view(v@)),
            None => json_items_of(body@, key@, flag@, content@) is None,
        },
{
    let v: serde_json::Value = serde_json::from_slice(body).ok()?;
    Some(v.get(key)?.as_array()?.iter().map(|it| ItemFacts {
        object: it.as_object().map(|o| o.contains_key(flag)),
        content: match it.get(content) {
            None => ContentKind::Missing,
            Some(serde_json::Value::String(s)) => ContentKind::Text(s.clone()),
            Some(serde_json::Value::Array(a)) => ContentKind::Array(a.len()),
            Some(_) => ContentKind::Other,
        },
    }).collect())
}

/// Parses `body` with `serde_json::from_slice` and counts the items of its
/// array member `key` with `Value::get`, `Value::as_array` and `Vec::len`.
/// Believed: the result is the named `json_array_length` of `body` and
/// `key`.
#[verifier::external_body]
pub(crate) fn array_length_in_json(body: &[u8], key: &str) -> (r: Option<usize>)
    ensures
        match r {
            Some(n) => json_array_length(body@, key@) == Some(n as nat),
            None => json_array_length(body@, key@) is None,
        },
{
    let v: serde_json::Value = serde_json::from_slice(body).ok()?;
    Some(v.get(key)?.as_array()?.len())
}

/// Parses `body` with `serde_json::from_slice`, sets the member `member` of
/// item `index` of its array member `key` to the string `value` with
/// `Value::get_mut`, `Value::as_object_mut` and `Map::insert` when that item
/// is an object (`get_mut` gives nothing past the end), and writes it back
/// with `serde_json::to_vec` (the bytes of `body` unchanged where parsing or
/// writing fails). Believed: the result is the named
/// `json_with_item_string_member` of its arguments.
#[verifier::external_body]
pub(crate) fn set_item_string_member_in_json(
    body: &[u8],
    key: &str,
    index: usize,
    member: &str,
    value: &str,
) -> (r: Vec<u8>)
    ensures
        r@ == json_with_item_string_member(body@, key@, index as nat, member@, value@),
{
    let Ok(mut v) = serde_json::from_slice::<serde_json::Value>(body) else {
        return body.to_vec();
    };
    if let Some(o) = v.get_mut(key).and_then(|a| a.get_mut(index)).and_then(|i| i.as_object_mut()) {
        o.insert(member.to_string(), serde_json::Value::String(value.to_string()));
    }
    serde_json::to_vec(&v).unwrap_or_else(|_| body.to_vec())
}

/// Parses `body` with `serde_json::from_slice`, removes item `index` of its
/// array member `key` with `Value::get_mut`, `Value::as_array_mut` and
/// `Vec::remove`, and writes it back with `serde_json::to_vec` (the bytes
/// of `body` unchanged where writing fails). `index` is below the array's
/// length, so `Vec::remove` does not panic. Believed: the result is the
/// named `json_without_item` of `body`, `key` and `index`.
#[verifier::external_body]
pub(crate) fn remove_item_in_json(body: &[u8], key: &str, index: usize) -> (r: Vec<u8>)
    requires
        json_array_length(body@, key@) matches Some(n) && index < n,
    ensures
        r@ == json_without_item(body@, key@, index as nat),
{
    let Ok(mut v) = serde_json::from_slice::<serde_json::Value>(body) else {
        return body.to_vec();
    };
    if let Some(a) = v.get_mut(key).and_then(|a| a.as_array_mut()) {
        a.remove(index);
    }
    serde_json::to_vec(&v).unwrap_or_else(|_| body.to_vec())
}

} // verus!
