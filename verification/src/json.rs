//! JSON documents as plain values, parsed by `serde_json`.

use vstd::prelude::*;

use crate::text::str_eq;

verus! {

#[verifier::external_type_specification]
#[verifier::external_body]
pub struct ExSerdeJsonValue(serde_json::Value);

/// A parsed JSON document. Object members keep the order in which the parser
/// yields them; a parser never yields one key twice.
#[derive(Debug)]
pub enum JsonValue {
    Null,
    Bool(bool),
    /// A non-negative integer that fits `u64`.
    Number(u64),
    /// Any other number (negative, fractional, or beyond `u64`), as
    /// `serde_json` writes it; the text reads back as the same number.
    OtherNumber(String),
    Str(String),
    Array(Vec<JsonValue>),
    Object(Vec<(String, JsonValue)>),
}

/// A JSON document as a mathematical value.
pub enum JsonView {
    Null,
    Bool(bool),
    Number(u64),
    OtherNumber(Seq<char>),
    Str(Seq<char>),
    Array(Seq<JsonView>),
    Object(Seq<(Seq<char>, JsonView)>),
}

/// The document `v` holds.
pub open spec fn jview(v: JsonValue) -> JsonView
    decreases v, 0nat,
{
    match v {
        JsonValue::Null => JsonView::Null,
        JsonValue::Bool(b) => JsonView::Bool(b),
        JsonValue::Number(n) => JsonView::Number(n),
        JsonValue::OtherNumber(t) => JsonView::OtherNumber(t@),
        JsonValue::Str(s) => JsonView::Str(s@),
        JsonValue::Array(items) => JsonView::Array(jview_items(items@)),
        JsonValue::Object(entries) => JsonView::Object(jview_entries(entries@)),
    }
}

pub open spec fn jview_items(s: Seq<JsonValue>) -> Seq<JsonView>
    decreases s, s.len(),
{
    if s.len() == 0 {
        Seq::empty()
    } else {
        seq![jview(s[0])] + jview_items(s.drop_first())
    }
}

pub open spec fn jview_entries(s: Seq<(String, JsonValue)>) -> Seq<(Seq<char>, JsonView)>
    decreases s, s.len(),
{
    if s.len() == 0 {
        Seq::empty()
    } else {
        seq![(s[0].0@, jview(s[0].1))] + jview_entries(s.drop_first())
    }
}

pub proof fn lemma_jview_items(s: Seq<JsonValue>)
    ensures
        jview_items(s).len() == s.len(),
        forall|j: int| 0 <= j < s.len() ==> #[trigger] jview_items(s)[j] == jview(s[j]),
    decreases s.len(),
{
    if s.len() > 0 {
        lemma_jview_items(s.drop_first());
        assert forall|j: int| 0 <= j < s.len() implies #[trigger] jview_items(s)[j] == jview(s[j]) by {
            if j > 0 {
                assert(s.drop_first()[j - 1] == s[j]);
            }
        }
    }
}

pub proof fn lemma_jview_entries(s: Seq<(String, JsonValue)>)
    ensures
        jview_entries(s).len() == s.len(),
        forall|j: int|
            0 <= j < s.len() ==> #[trigger] jview_entries(s)[j] == (s[j].0@, jview(s[j].1)),
    decreases s.len(),
{
    if s.len() > 0 {
        lemma_jview_entries(s.drop_first());
        assert forall|j: int| 0 <= j < s.len() implies #[trigger] jview_entries(s)[j] == (
            s[j].0@,
            jview(s[j].1),
        ) by {
            if j > 0 {
                assert(s.drop_first()[j - 1] == s[j]);
            }
        }
    }
}

/// First member of `entries` named `key`, in a document.
pub open spec fn vfield(entries: Seq<(Seq<char>, JsonView)>, key: Seq<char>) -> Option<JsonView>
    decreases entries.len(),
{
    if entries.len() == 0 {
        None
    } else if entries[0].0 == key {
        Some(entries[0].1)
    } else {
        vfield(entries.drop_first(), key)
    }
}

/// Member `key` of an object document.
pub open spec fn vget(v: JsonView, key: Seq<char>) -> Option<JsonView> {
    match v {
        JsonView::Object(entries) => vfield(entries, key),
        _ => None,
    }
}

/// `vget` followed by taking the text of a string.
pub open spec fn vget_str(v: JsonView, key: Seq<char>) -> Option<Seq<char>> {
    match vget(v, key) {
        Some(JsonView::Str(s)) => Some(s),
        _ => None,
    }
}

pub proof fn lemma_field_view(entries: Seq<(String, JsonValue)>, key: Seq<char>)
    ensures
        match field_of(entries, key) {
            Some(x) => vfield(jview_entries(entries), key) == Some(jview(x)),
            None => vfield(jview_entries(entries), key) is None,
        },
    decreases entries.len(),
{
    if entries.len() > 0 {
        lemma_field_view(entries.drop_first(), key);
        assert(jview_entries(entries).drop_first() =~= jview_entries(entries.drop_first()));
    }
}

/// Looking a key up after appending a member.
pub proof fn lemma_vfield_push(entries: Seq<(Seq<char>, JsonView)>, e: (Seq<char>, JsonView), key: Seq<char>)
    ensures
        vfield(entries.push(e), key) == (match vfield(entries, key) {
            Some(x) => Some(x),
            None => if e.0 == key {
                Some(e.1)
            } else {
                None
            },
        }),
    decreases entries.len(),
{
    if entries.len() > 0 {
        assert(entries.push(e).drop_first() =~= entries.drop_first().push(e));
        assert(entries.push(e)[0] == entries[0]);
        lemma_vfield_push(entries.drop_first(), e, key);
    } else {
        assert(entries.push(e)[0] == e);
        assert(entries.push(e).drop_first() =~= Seq::<(Seq<char>, JsonView)>::empty());
        assert(vfield(Seq::<(Seq<char>, JsonView)>::empty(), key) is None);
    }
}

/// Looking a key up in a concatenation.
pub proof fn lemma_vfield_concat(a: Seq<(Seq<char>, JsonView)>, b: Seq<(Seq<char>, JsonView)>, key: Seq<char>)
    ensures
        vfield(a + b, key) == (match vfield(a, key) {
            Some(x) => Some(x),
            None => vfield(b, key),
        }),
    decreases a.len(),
{
    if a.len() > 0 {
        assert((a + b).drop_first() =~= a.drop_first() + b);
        lemma_vfield_concat(a.drop_first(), b, key);
    } else {
        assert(a + b =~= b);
    }
}

pub proof fn lemma_jview_entries_push(s: Seq<(String, JsonValue)>, e: (String, JsonValue))
    ensures
        jview_entries(s.push(e)) == jview_entries(s).push((e.0@, jview(e.1))),
{
    lemma_jview_entries(s);
    lemma_jview_entries(s.push(e));
    assert(jview_entries(s.push(e)) =~= jview_entries(s).push((e.0@, jview(e.1))));
}

pub proof fn lemma_jview_items_push(s: Seq<JsonValue>, e: JsonValue)
    ensures
        jview_items(s.push(e)) == jview_items(s).push(jview(e)),
{
    lemma_jview_items(s);
    lemma_jview_items(s.push(e));
    assert(jview_items(s.push(e)) =~= jview_items(s).push(jview(e)));
}

/// Appends member `key` to an object under construction.
pub fn push_member(entries: &mut Vec<(String, JsonValue)>, key: &str, value: JsonValue)
    ensures
        jview_entries(final(entries)@) == jview_entries(old(entries)@).push((key@, jview(value))),
{
    let ghost before = entries@;
    let k = key.to_owned();
    let e = (k, value);
    proof {
        lemma_jview_entries_push(before, e);
    }
    entries.push(e);
}

/// What `serde_json::from_str::<serde_json::Value>` yields for `text`, or
/// `None` when it rejects the text.
pub uninterp spec fn json_parse(text: Seq<char>) -> Option<JsonValue>;

/// Converts a `serde_json::Value`, member by member.
#[verifier::external_body]
fn json_from_serde(v: &serde_json::Value) -> JsonValue {
    match v {
        serde_json::Value::Null => JsonValue::Null,
        serde_json::Value::Bool(b) => JsonValue::Bool(*b),
        serde_json::Value::Number(n) => match n.as_u64() {
            Some(u) => JsonValue::Number(u),
            None => JsonValue::OtherNumber(n.to_string()),
        },
        serde_json::Value::String(s) => JsonValue::Str(s.clone()),
        serde_json::Value::Array(items) => JsonValue::Array(items.iter().map(json_from_serde).collect()),
        serde_json::Value::Object(map) => JsonValue::Object(
            map.iter().map(|(k, item)| (k.clone(), json_from_serde(item))).collect(),
        ),
    }
}

/// Parses `text` with `serde_json::from_str` into a [`JsonValue`]; `None` when
/// `serde_json` reports an error. The result is [`json_parse`] of the text.
#[verifier::external_body]
fn serde_parse(text: &str) -> (r: Option<JsonValue>)
    ensures
        r == json_parse(text@),
{
    match serde_json::from_str::<serde_json::Value>(text) {
        Ok(v) => Some(json_from_serde(&v)),
        Err(_) => None,
    }
}

/// The JSON document `text` holds, as `serde_json` reads it; `None` when it
/// is not JSON.
pub fn parse_json(text: &str) -> (r: Option<JsonValue>)
    ensures
        r == json_parse(text@),
{
    serde_parse(text)
}

/// First member of `entries` named `key`.
pub open spec fn field_of(entries: Seq<(String, JsonValue)>, key: Seq<char>) -> Option<JsonValue>
    decreases entries.len(),
{
    if entries.len() == 0 {
        None
    } else if entries[0].0@ == key {
        Some(entries[0].1)
    } else {
        field_of(entries.drop_first(), key)
    }
}

/// `serde_json::Value::get` with a string key.
pub open spec fn json_get(v: JsonValue, key: Seq<char>) -> Option<JsonValue> {
    match v {
        JsonValue::Object(entries) => field_of(entries@, key),
        _ => None,
    }
}

/// `serde_json::Value::as_str`, as characters.
pub open spec fn json_str(v: JsonValue) -> Option<Seq<char>> {
    match v {
        JsonValue::Str(s) => Some(s@),
        _ => None,
    }
}

/// `json_get` followed by `json_str`.
pub open spec fn json_get_str(v: JsonValue, key: Seq<char>) -> Option<Seq<char>> {
    match json_get(v, key) {
        Some(item) => json_str(item),
        None => None,
    }
}

/// `json_get` followed by `as_u64`.
pub open spec fn json_get_u64(v: JsonValue, key: Seq<char>) -> Option<u64> {
    match json_get(v, key) {
        Some(JsonValue::Number(n)) => Some(n),
        _ => None,
    }
}

/// `r` refers to the value `s` holds, or both are empty.
pub open spec fn same_json(r: Option<&JsonValue>, s: Option<JsonValue>) -> bool {
    match r {
        Some(v) => s == Some(*v),
        None => s is None,
    }
}

pub fn object_field<'a>(entries: &'a Vec<(String, JsonValue)>, key: &str) -> (r: Option<
    &'a JsonValue,
>)
    ensures
        same_json(r, field_of(entries@, key@)),
{
    let mut i: usize = 0;
    assert(entries@.skip(0) =~= entries@);
    while i < entries.len()
        invariant
            i <= entries.len(),
            field_of(entries@, key@) == field_of(entries@.skip(i as int), key@),
        decreases entries.len() - i,
    {
        let ghost s = entries@.skip(i as int);
        assert(s[0] == entries@[i as int]);
        if str_eq(entries[i].0.as_str(), key) {
            return Some(&entries[i].1);
        }
        assert(s.drop_first() =~= entries@.skip(i + 1));
        i += 1;
    }
    None
}

impl JsonValue {
    /// A copy of the document, member by member.
    pub fn deep_copy(&self) -> (r: JsonValue)
        ensures
            jview(r) == jview(*self),
        decreases self,
    {
        match self {
            JsonValue::Null => JsonValue::Null,
            JsonValue::Bool(b) => JsonValue::Bool(*b),
            JsonValue::Number(n) => JsonValue::Number(*n),
            JsonValue::OtherNumber(t) => JsonValue::OtherNumber(t.clone()),
            JsonValue::Str(s) => JsonValue::Str(s.clone()),
            JsonValue::Array(items) => {
                let mut out: Vec<JsonValue> = Vec::new();
                let mut i: usize = 0;
                while i < items.len()
                    invariant
                        i <= items.len(),
                        out.len() == i,
                        *self == JsonValue::Array(*items),
                        forall|j: int| 0 <= j < i ==> jview(#[trigger] out@[j]) == jview(items@[j]),
                    decreases items.len() - i,
                {
                    proof {
                        vstd::std_specs::vec::axiom_vec_index_decreases(*items, i as int);
                        assert(decreases_to!(*self => (*self)->Array_0));
                        assert(decreases_to!(*self => items[i as int]));
                    }
                    let c = items[i].deep_copy();
                    out.push(c);
                    i += 1;
                }
                proof {
                    lemma_jview_items(out@);
                    lemma_jview_items(items@);
                    assert(jview_items(out@) =~= jview_items(items@));
                }
                JsonValue::Array(out)
            },
            JsonValue::Object(entries) => {
                let mut out: Vec<(String, JsonValue)> = Vec::new();
                let mut i: usize = 0;
                while i < entries.len()
                    invariant
                        i <= entries.len(),
                        out.len() == i,
                        *self == JsonValue::Object(*entries),
                        forall|j: int|
                            0 <= j < i ==> (#[trigger] out@[j]).0@ == entries@[j].0@ && jview(
                                out@[j].1,
                            ) == jview(entries@[j].1),
                    decreases entries.len() - i,
                {
                    proof {
                        vstd::std_specs::vec::axiom_vec_index_decreases(*entries, i as int);
                        assert(decreases_to!(*self => (*self)->Object_0));
                        assert(decreases_to!(entries[i as int] => entries[i as int].1));
                        assert(decreases_to!(*self => entries[i as int].1));
                    }
                    let k = entries[i].0.clone();
                    let c = entries[i].1.deep_copy();
                    out.push((k, c));
                    i += 1;
                }
                proof {
                    lemma_jview_entries(out@);
                    lemma_jview_entries(entries@);
                    assert(jview_entries(out@) =~= jview_entries(entries@));
                }
                JsonValue::Object(out)
            },
        }
    }

    /// `serde_json::Value::get` with a string key.
    pub fn get(&self, key: &str) -> (r: Option<&JsonValue>)
        ensures
            same_json(r, json_get(*self, key@)),
            r matches Some(x) ==> vget(jview(*self), key@) == Some(jview(*x)),
            r is None ==> vget(jview(*self), key@) is None,
    {
        match self {
            JsonValue::Object(entries) => {
                proof {
                    lemma_field_view(entries@, key@);
                }
                object_field(entries, key)
            },
            _ => None,
        }
    }

    pub fn as_str(&self) -> (r: Option<&String>)
        ensures
            r matches Some(s) ==> json_str(*self) == Some(s@),
            r is None ==> json_str(*self) is None,
    {
        match self {
            JsonValue::Str(s) => Some(s),
            _ => None,
        }
    }

    pub fn as_u64(&self) -> (r: Option<u64>)
        ensures
            r == (match *self {
                JsonValue::Number(n) => Some(n),
                _ => None,
            }),
    {
        match self {
            JsonValue::Number(n) => Some(*n),
            _ => None,
        }
    }

    /// `json_get` then `as_str`.
    pub fn get_str(&self, key: &str) -> (r: Option<&String>)
        ensures
            r matches Some(s) ==> json_get_str(*self, key@) == Some(s@),
            r is None ==> json_get_str(*self, key@) is None,
            r matches Some(s) ==> vget_str(jview(*self), key@) == Some(s@),
            r is None ==> vget_str(jview(*self), key@) is None,
    {
        match self.get(key) {
            Some(v) => v.as_str(),
            None => None,
        }
    }

    /// `json_get` then `as_u64`.
    pub fn get_u64(&self, key: &str) -> (r: Option<u64>)
        ensures
            r == json_get_u64(*self, key@),
    {
        match self.get(key) {
            Some(v) => v.as_u64(),
            None => None,
        }
    }
}

} // verus!
