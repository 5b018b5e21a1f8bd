//! JSON through `serde_json`: the text it writes for a map of strings, and the values it
//! reads, held as plain data.
use std::collections::HashMap;

use vstd::prelude::*;

use crate::text::join;

verus! {

// ---------------------------------------------------------------------------
// Writing a map of strings
// ---------------------------------------------------------------------------

/// Lower-case hexadecimal digit.
pub open spec fn hex_digit(d: nat) -> char {
    if d < 10 {
        ((d + 48) as u32) as char
    } else {
        ((d + 87) as u32) as char
    }
}

/// How `serde_json` writes one character inside a string: quote, backslash and control
/// characters escaped (`\b \t \n \f \r`, the others as `\u00XX`), all else as it is.
pub open spec fn json_escaped_char(c: char) -> Seq<char> {
    let u = c as u32;
    if u == 8 {
        seq!['\\', 'b']
    } else if u == 9 {
        seq!['\\', 't']
    } else if u == 10 {
        seq!['\\', 'n']
    } else if u == 12 {
        seq!['\\', 'f']
    } else if u == 13 {
        seq!['\\', 'r']
    } else if u < 32 {
        seq!['\\', 'u', '0', '0', hex_digit((u / 16) as nat), hex_digit((u % 16) as nat)]
    } else if c == '"' {
        seq!['\\', '"']
    } else if c == '\\' {
        seq!['\\', '\\']
    } else {
        seq![c]
    }
}

pub open spec fn json_escaped(s: Seq<char>) -> Seq<char>
    decreases s.len(),
{
    if s.len() == 0 {
        Seq::empty()
    } else {
        json_escaped(s.drop_last()) + json_escaped_char(s.last())
    }
}

/// A JSON string literal.
pub open spec fn json_string(s: Seq<char>) -> Seq<char> {
    seq!['"'] + json_escaped(s) + seq!['"']
}

/// A JSON object of string members, in the given order, without white space.
pub open spec fn json_object_of(entries: Seq<(Seq<char>, Seq<char>)>) -> Seq<char> {
    seq!['{'] + join(
        entries.map_values(
            |e: (Seq<char>, Seq<char>)| json_string(e.0) + seq![':'] + json_string(e.1),
        ),
        seq![','],
    ) + seq!['}']
}

/// `order` lists every entry of `m` exactly once.
pub open spec fn lists_entries(order: Seq<(String, String)>, m: Map<String, String>) -> bool {
    &&& order.len() == m.dom().len()
    &&& forall|i: int|
        0 <= i < order.len() ==> m.contains_key(#[trigger] order[i].0) && m[order[i].0]
            == order[i].1
    &&& forall|i: int, j: int| 0 <= i < j < order.len() ==> #[trigger] order[i].0 != #[trigger] order[j].0
}

/// `text` is the JSON object of the entries of `m`, in some order.
pub open spec fn is_json_of(text: Seq<char>, m: Map<String, String>) -> bool {
    exists|order: Seq<(String, String)>|
        #[trigger] lists_entries(order, m) && text == json_object_of(
            order.map_values(|e: (String, String)| (e.0@, e.1@)),
        )
}

/// Calls `serde_json::to_string` on a map of strings.  It succeeds: its only errors come
/// from the writer, a `Vec<u8>` that never fails, or from map keys that are not strings.
/// It writes `{`, then each entry as it walks the map (key and value as escaped JSON
/// strings joined by `:`, entries separated by `,`), then `}`.  The order in which the map
/// is walked is not stated.
#[verifier::external_body]
pub(crate) fn map_to_json(m: &HashMap<String, String>) -> (r: Result<String, serde_json::Error>)
    ensures
        match r {
            Ok(s) => is_json_of(s@, m@),
            Err(_) => false,
        },
{
    serde_json::to_string(m)
}

/// The JSON of an empty map is `{}`.
pub proof fn lemma_json_of_empty(text: Seq<char>)
    requires
        is_json_of(text, Map::<String, String>::empty()),
    ensures
        text == seq!['{', '}'],
{
    let order = choose|order: Seq<(String, String)>|
        #[trigger] lists_entries(order, Map::<String, String>::empty()) && text == json_object_of(
            order.map_values(|e: (String, String)| (e.0@, e.1@)),
        );
    assert(Map::<String, String>::empty().dom() =~= Set::<String>::empty());
    assert(order.len() == 0);
    assert(order.map_values(|e: (String, String)| (e.0@, e.1@)).len() == 0);
    assert(text =~= seq!['{', '}']);
}

// ---------------------------------------------------------------------------
// Reading JSON
// ---------------------------------------------------------------------------

/// A JSON value as plain data: numbers as their decimal text, objects as their members
/// in order.
#[derive(Debug)]
pub enum JsonValue {
    Null,
    Bool(bool),
    Number(String),
    Str(String),
    Array(Vec<JsonValue>),
    Object(Vec<(String, JsonValue)>),
}

/// The mathematical form of a JSON value.
pub enum JsonView {
    Null,
    Bool(bool),
    Number(Seq<char>),
    Str(Seq<char>),
    Array(Seq<JsonView>),
    Object(Seq<(Seq<char>, JsonView)>),
}

/// The view of one value.
pub open spec fn json_view(v: JsonValue) -> JsonView
    decreases v,
{
    match v {
        JsonValue::Null => JsonView::Null,
        JsonValue::Bool(b) => JsonView::Bool(b),
        JsonValue::Number(n) => JsonView::Number(n@),
        JsonValue::Str(s) => JsonView::Str(s@),
        JsonValue::Array(items) => JsonView::Array(json_items_view(items@)),
        JsonValue::Object(members) => JsonView::Object(json_members_view(members@)),
    }
}

/// The views of the items of an array.
pub open spec fn json_items_view(items: Seq<JsonValue>) -> Seq<JsonView>
    decreases items,
{
    if items.len() == 0 {
        Seq::empty()
    } else {
        proof {
            assert(decreases_to!(items => items[items.len() - 1]));
        }
        json_items_view(items.drop_last()).push(json_view(items.last()))
    }
}

/// The views of the members of an object: each key with the view of its value.
pub open spec fn json_members_view(members: Seq<(String, JsonValue)>) -> Seq<(Seq<char>, JsonView)>
    decreases members,
{
    if members.len() == 0 {
        Seq::empty()
    } else {
        proof {
            assert(decreases_to!(members => members[members.len() - 1]));
        }
        json_members_view(members.drop_last()).push(
            (members.last().0@, json_view(members.last().1)),
        )
    }
}

impl View for JsonValue {
    type V = JsonView;

    open spec fn view(&self) -> JsonView {
        json_view(*self)
    }
}

/// The views of the items of an array, item by item.
pub proof fn lemma_items_view(items: Seq<JsonValue>)
    ensures
        json_items_view(items).len() == items.len(),
        forall|i: int| 0 <= i < items.len() ==> #[trigger] json_items_view(items)[i] == json_view(items[i]),
    decreases items.len(),
{
    if items.len() > 0 {
        lemma_items_view(items.drop_last());
    }
}

/// The views of the members of an object, member by member.
pub proof fn lemma_members_view(members: Seq<(String, JsonValue)>)
    ensures
        json_members_view(members).len() == members.len(),
        forall|i: int| 0 <= i < members.len() ==> #[trigger] json_members_view(members)[i] == (
            members[i].0@,
            json_view(members[i].1),
        ),
    decreases members.len(),
{
    if members.len() > 0 {
        lemma_members_view(members.drop_last());
    }
}

/// The value of the first member named `key` among `members`.
pub open spec fn member_in(members: Seq<(Seq<char>, JsonView)>, key: Seq<char>) -> Option<JsonView>
    decreases members.len(),
{
    if members.len() == 0 {
        None
    } else if members[0].0 == key {
        Some(members[0].1)
    } else {
        member_in(members.drop_first(), key)
    }
}

/// The member `key` of an object; `None` when `v` is no object or has no such member
/// (where `serde_json`'s index gives `null`).
pub open spec fn member(v: JsonView, key: Seq<char>) -> Option<JsonView> {
    match v {
        JsonView::Object(members) => member_in(members, key),
        _ => None,
    }
}

/// Looks a member up by its key.
pub fn get_member<'a>(v: &'a JsonValue, key: &str) -> (r: Option<&'a JsonValue>)
    ensures
        match r {
            Some(x) => member(v@, key@) == Some(x@),
            None => member(v@, key@) is None,
        },
{
    match v {
        JsonValue::Object(members) => {
            let ghost mv = json_members_view(members@);
            proof {
                lemma_members_view(members@);
                assert(mv.skip(0) =~= mv);
            }
            let mut i: usize = 0;
            while i < members.len()
                invariant
                    i <= members.len(),
                    mv == json_members_view(members@),
                    v@ == JsonView::Object(mv),
                    mv.len() == members.len(),
                    forall|k: int| 0 <= k < members.len() ==> #[trigger] mv[k] == (
                        members@[k].0@,
                        json_view(members@[k].1),
                    ),
                    member_in(mv, key@) == member_in(mv.skip(i as int), key@),
                decreases members.len() - i,
            {
                proof {
                    assert(mv.skip(i as int)[0] == mv[i as int]);
                    assert(mv.skip(i as int).drop_first() =~= mv.skip(i + 1));
                }
                if crate::text::str_eq(members[i].0.as_str(), key) {
                    return Some(&members[i].1);
                }
                i += 1;
            }
            None
        },
        _ => None,
    }
}

/// `serde_json`'s dynamically typed value, carried through to be converted.
#[verifier::external_type_specification]
#[verifier::external_body]
pub struct ExSerdeJsonValue(serde_json::Value);

/// What `serde_json::from_slice::<serde_json::Value>` makes of `bytes`, taken as plain
/// data (see [`parse_json`]); `None` where it reports an error.
pub uninterp spec fn parsed_json(bytes: Seq<u8>) -> Option<JsonView>;

/// Copies a `serde_json::Value` into a [`JsonValue`], variant by variant: a number as
/// the text that its `Display` writes, an object's members in the order in which its map
/// is walked (sorted by key, without the `preserve_order` feature).
#[verifier::external_body]
fn json_from_serde(v: &serde_json::Value) -> JsonValue {
    match v {
        serde_json::Value::Null => JsonValue::Null,
        serde_json::Value::Bool(b) => JsonValue::Bool(*b),
        serde_json::Value::Number(n) => JsonValue::Number(n.to_string()),
        serde_json::Value::String(s) => JsonValue::Str(s.clone()),
        serde_json::Value::Array(a) => JsonValue::Array(a.iter().map(json_from_serde).collect()),
        serde_json::Value::Object(m) => JsonValue::Object(
            m.iter().map(|(k, x)| (k.clone(), json_from_serde(x))).collect(),
        ),
    }
}

/// Parses `bytes` with `serde_json::from_slice` into a `serde_json::Value` and copies it
/// into a [`JsonValue`].  The claim: the result is present exactly when `serde_json`
/// accepts the bytes, and it is the same value for the same bytes (the name
/// [`parsed_json`]); what `serde_json` accepts, and what it makes of the text, is not
/// stated.
#[verifier::external_body]
pub(crate) fn parse_json(bytes: &[u8]) -> (r: Option<JsonValue>)
    ensures
        r.is_some() == parsed_json(bytes@).is_some(),
        r matches Some(v) ==> parsed_json(bytes@) == Some(v@),
{
    serde_json::from_slice::<serde_json::Value>(bytes).ok().map(|v| json_from_serde(&v))
}

} // verus!
