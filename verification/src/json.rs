//! JSON values as the library reads them, and the bridge to `serde_json`.
use vstd::prelude::*;

use crate::digest::hex_digit;
use crate::text::same_text;

verus! {

/// A JSON value. Object entries are a list of key and value. A value read by `serde_json`
/// lists its keys in sorted order, each once (a later duplicate key replaces the earlier
/// one), and a number keeps the text that `serde_json` writes for it.
#[derive(Debug, PartialEq)]
pub enum Json {
    Null,
    Bool(bool),
    Number(String),
    String(String),
    Array(Vec<Json>),
    Object(Vec<(String, Json)>),
}

/// The mathematical value of a `Json`: the same tree, with sequences for its vectors and
/// character sequences for its strings.
pub enum JsonView {
    Null,
    Bool(bool),
    Number(Seq<char>),
    String(Seq<char>),
    Array(Seq<JsonView>),
    Object(Seq<(Seq<char>, JsonView)>),
}

/// The views of a sequence of values.
pub open spec fn view_items(items: Seq<Json>) -> Seq<JsonView>
    decreases items,
{
    if items.len() == 0 {
        Seq::empty()
    } else {
        view_items(items.subrange(0, items.len() - 1)).push(view_json(items[items.len() - 1]))
    }
}

/// The views of a sequence of object entries.
pub open spec fn view_entries(entries: Seq<(String, Json)>) -> Seq<(Seq<char>, JsonView)>
    decreases entries,
{
    if entries.len() == 0 {
        Seq::empty()
    } else {
        let last = entries[entries.len() - 1];
        view_entries(entries.subrange(0, entries.len() - 1)).push((last.0@, view_json(last.1)))
    }
}

/// The view of a value.
pub open spec fn view_json(v: Json) -> JsonView
    decreases v,
{
    match v {
        Json::Null => JsonView::Null,
        Json::Bool(b) => JsonView::Bool(b),
        Json::Number(n) => JsonView::Number(n@),
        Json::String(s) => JsonView::String(s@),
        Json::Array(items) => {
            proof {
                assert(decreases_to!(items => items@));
            }
            JsonView::Array(view_items(items@))
        },
        Json::Object(entries) => {
            proof {
                assert(decreases_to!(entries => entries@));
            }
            JsonView::Object(view_entries(entries@))
        },
    }
}

impl View for Json {
    type V = JsonView;

    open spec fn view(&self) -> JsonView {
        view_json(*self)
    }
}


/// The position of the first entry named `key`, if any.
pub open spec fn entry_pos(entries: Seq<(Seq<char>, JsonView)>, key: Seq<char>) -> Option<int> {
    if exists|i: int| 0 <= i < entries.len() && #[trigger] entries[i].0 == key {
        Some(choose|i: int| 0 <= i < entries.len() && entries[i].0 == key && forall|j: int| 0 <= j < i ==> #[trigger] entries[j].0 != key)
    } else {
        None
    }
}

impl JsonView {
    /// `Value::get` with a key: the value of the object's first entry named `key`.
    pub open spec fn get(self, key: Seq<char>) -> Option<JsonView> {
        match self {
            JsonView::Object(entries) => match entry_pos(entries, key) {
                Some(i) => Some(entries[i].1),
                None => None,
            },
            _ => None,
        }
    }

    /// `Value::get` with an index: the array's element at `index`.
    pub open spec fn at(self, index: int) -> Option<JsonView> {
        match self {
            JsonView::Array(items) => if 0 <= index < items.len() {
                Some(items[index])
            } else {
                None
            },
            _ => None,
        }
    }

    /// `Value::as_str`.
    pub open spec fn as_str(self) -> Option<Seq<char>> {
        match self {
            JsonView::String(s) => Some(s),
            _ => None,
        }
    }
}

/// A value's view is an array exactly when the value is one.
pub proof fn lemma_view_array(x: Json)
    ensures
        (x@ is Array) <==> (x is Array),
        x matches Json::Array(items) ==> x@ == JsonView::Array(view_items(items@)),
        (x@ is String) <==> (x is String),
{
}

/// The view of an optional reference to a value.
pub open spec fn opt_view(o: Option<&Json>) -> Option<JsonView> {
    match o {
        Some(v) => Some(v@),
        None => None,
    }
}

pub proof fn lemma_view_items(items: Seq<Json>)
    ensures
        view_items(items).len() == items.len(),
        forall|i: int| 0 <= i < items.len() ==> #[trigger] view_items(items)[i] == view_json(items[i]),
    decreases items.len(),
{
    if items.len() > 0 {
        let init = items.subrange(0, items.len() - 1);
        lemma_view_items(init);
        assert forall|i: int| 0 <= i < items.len() implies #[trigger] view_items(items)[i] == view_json(items[i]) by {
            if i < items.len() - 1 {
                assert(init[i] == items[i]);
            }
        }
    }
}

pub proof fn lemma_view_entries(entries: Seq<(String, Json)>)
    ensures
        view_entries(entries).len() == entries.len(),
        forall|i: int| 0 <= i < entries.len() ==> #[trigger] view_entries(entries)[i] == (entries[i].0@, view_json(entries[i].1)),
    decreases entries.len(),
{
    if entries.len() > 0 {
        let init = entries.subrange(0, entries.len() - 1);
        lemma_view_entries(init);
        assert forall|i: int| 0 <= i < entries.len() implies #[trigger] view_entries(entries)[i] == (entries[i].0@, view_json(entries[i].1)) by {
            if i < entries.len() - 1 {
                assert(init[i] == entries[i]);
            }
        }
    }
}

pub proof fn lemma_first_entry_pos(entries: Seq<(Seq<char>, JsonView)>, key: Seq<char>, i: int)
    requires
        0 <= i < entries.len(),
        entries[i].0 == key,
        forall|j: int| 0 <= j < i ==> #[trigger] entries[j].0 != key,
    ensures
        entry_pos(entries, key) == Some(i),
{
    let c = choose|c: int| 0 <= c < entries.len() && entries[c].0 == key && forall|j: int| 0 <= j < c ==> #[trigger] entries[j].0 != key;
    assert(0 <= c < entries.len() && entries[c].0 == key && forall|j: int| 0 <= j < c ==> #[trigger] entries[j].0 != key);
    if c < i {
        assert(entries[c].0 != key);
    } else if i < c {
        assert(entries[i].0 != key);
    }
}

/// Views of two sequences agree when their elements' views agree pointwise.
proof fn lemma_view_items_pointwise(a: Seq<Json>, b: Seq<Json>)
    requires
        a.len() == b.len(),
        forall|i: int| 0 <= i < a.len() ==> view_json(#[trigger] a[i]) == view_json(b[i]),
    ensures
        view_items(a) == view_items(b),
{
    lemma_view_items(a);
    lemma_view_items(b);
    assert(view_items(a) =~= view_items(b));
}

proof fn lemma_view_entries_pointwise(a: Seq<(String, Json)>, b: Seq<(String, Json)>)
    requires
        a.len() == b.len(),
        forall|i: int| 0 <= i < a.len() ==> (#[trigger] a[i]).0@ == b[i].0@ && view_json(a[i].1) == view_json(b[i].1),
    ensures
        view_entries(a) == view_entries(b),
{
    lemma_view_entries(a);
    lemma_view_entries(b);
    assert(view_entries(a) =~= view_entries(b));
}

impl Json {
    /// The value of the object's first entry named `key`; `None` for other values.
    pub fn get(&self, key: &str) -> (r: Option<&Json>)
        ensures
            opt_view(r) == self@.get(key@),
    {
        match self {
            Json::Object(entries) => {
                proof {
                    lemma_view_entries(entries@);
                }
                let ghost es = view_entries(entries@);
                let mut i: usize = 0;
                while i < entries.len()
                    invariant
                        self@ == JsonView::Object(es),
                        es == view_entries(entries@),
                        es.len() == entries@.len(),
                        forall|j: int| 0 <= j < entries@.len() ==> #[trigger] es[j] == (entries@[j].0@, view_json(entries@[j].1)),
                        i <= entries.len(),
                        forall|j: int| 0 <= j < i ==> #[trigger] es[j].0 != key@,
                    decreases entries.len() - i,
                {
                    assert(es[i as int] == (entries@[i as int].0@, view_json(entries@[i as int].1)));
                    if same_text(entries[i].0.as_str(), key) {
                        proof {
                            lemma_first_entry_pos(es, key@, i as int);
                        }
                        return Some(&entries[i].1);
                    }
                    i = i + 1;
                }
                None
            },
            _ => None,
        }
    }

    /// The array's element at `index`; `None` for other values.
    pub fn at(&self, index: usize) -> (r: Option<&Json>)
        ensures
            opt_view(r) == self@.at(index as int),
    {
        match self {
            Json::Array(items) => {
                proof {
                    lemma_view_items(items@);
                }
                if index < items.len() {
                    Some(&items[index])
                } else {
                    None
                }
            },
            _ => None,
        }
    }

    /// The text of a string value; `None` for other values.
    pub fn as_str(&self) -> (r: Option<&str>)
        ensures
            match r {
                Some(s) => self@.as_str() == Some(s@),
                None => self@.as_str() is None,
            },
    {
        match self {
            Json::String(s) => Some(s.as_str()),
            _ => None,
        }
    }

    /// A copy of the value.
    pub fn copy(&self) -> (r: Json)
        ensures
            r@ == self@,
        decreases self,
    {
        match self {
            Json::Null => Json::Null,
            Json::Bool(b) => Json::Bool(*b),
            Json::Number(n) => Json::Number(n.clone()),
            Json::String(s) => Json::String(s.clone()),
            Json::Array(items) => {
                let mut out: Vec<Json> = Vec::new();
                let mut i: usize = 0;
                while i < items.len()
                    invariant
                        *self == Json::Array(*items),
                        i <= items.len(),
                        out@.len() == i,
                        forall|j: int| 0 <= j < i ==> view_json(#[trigger] out@[j]) == view_json(items@[j]),
                    decreases items.len() - i,
                {
                    proof {
                        assert(decreases_to!(*self => self->Array_0));
                        assert(decreases_to!(*items => items[i as int]));
                    }
                    let c = items[i].copy();
                    out.push(c);
                    i = i + 1;
                }
                proof {
                    lemma_view_items_pointwise(out@, items@);
                }
                Json::Array(out)
            },
            Json::Object(entries) => {
                let mut out: Vec<(String, Json)> = Vec::new();
                let mut i: usize = 0;
                while i < entries.len()
                    invariant
                        *self == Json::Object(*entries),
                        i <= entries.len(),
                        out@.len() == i,
                        forall|j: int| 0 <= j < i ==> (#[trigger] out@[j]).0@ == entries@[j].0@ && view_json(out@[j].1) == view_json(entries@[j].1),
                    decreases entries.len() - i,
                {
                    proof {
                        assert(decreases_to!(*self => self->Object_0));
                        assert(decreases_to!(*entries => entries[i as int]));
                        assert(decreases_to!(entries[i as int] => entries[i as int].1));
                    }
                    let c = entries[i].1.copy();
                    out.push((entries[i].0.clone(), c));
                    i = i + 1;
                }
                proof {
                    lemma_view_entries_pointwise(out@, entries@);
                }
                Json::Object(out)
            },
        }
    }
}


/// `serde_json`'s own value type, carried through opaquely.
#[verifier::external_type_specification]
#[verifier::external_body]
pub struct ExSerdeValue(serde_json::Value);

/// What `serde_json::from_str::<serde_json::Value>` reads from `text`; `None` where it
/// refuses the text.
pub uninterp spec fn serde_json_parse(text: Seq<char>) -> Option<JsonView>;

/// What `serde_json::to_string_pretty` writes for `value`.
pub uninterp spec fn serde_json_pretty(value: JsonView) -> Seq<char>;

/// One character of a string as `serde_json` writes it inside quotes: `\"` and `\\`, the
/// short escapes `\b`, `\t`, `\n`, `\f` and `\r`, `\u00XX` (lowercase hexadecimal) for the
/// other characters below U+0020, and every other character as it is.
pub open spec fn json_char_escape(c: char) -> Seq<char> {
    if c == '"' {
        seq!['\\', '"']
    } else if c == '\\' {
        seq!['\\', '\\']
    } else if c == '\u{8}' {
        seq!['\\', 'b']
    } else if c == '\t' {
        seq!['\\', 't']
    } else if c == '\n' {
        seq!['\\', 'n']
    } else if c == '\u{c}' {
        seq!['\\', 'f']
    } else if c == '\r' {
        seq!['\\', 'r']
    } else if (c as int) < 32 {
        seq!['\\', 'u', '0', '0', hex_digit((c as int) / 16), hex_digit((c as int) % 16)]
    } else {
        seq![c]
    }
}

/// The characters of `s`, each escaped (see `json_char_escape`).
pub open spec fn json_escaped(s: Seq<char>) -> Seq<char>
    decreases s.len(),
{
    if s.len() == 0 {
        Seq::empty()
    } else {
        json_escaped(s.drop_last()) + json_char_escape(s.last())
    }
}

/// `s` as a JSON string: escaped, between double quotes.
pub open spec fn json_quoted(s: Seq<char>) -> Seq<char> {
    seq!['"'] + json_escaped(s) + seq!['"']
}

/// The quoted strings of `items`, separated by commas.
pub open spec fn json_list_items(items: Seq<Seq<char>>) -> Seq<char>
    decreases items.len(),
{
    if items.len() == 0 {
        Seq::empty()
    } else if items.len() == 1 {
        json_quoted(items[0])
    } else {
        json_list_items(items.drop_last()) + seq![','] + json_quoted(items.last())
    }
}

/// What `serde_json::to_string` writes for a list of strings: the quoted strings between
/// brackets, separated by commas, with no spaces.
pub open spec fn json_string_list(items: Seq<Seq<char>>) -> Seq<char> {
    seq!['['] + json_list_items(items) + seq![']']
}

/// The view of an optional value.
pub open spec fn opt_json_view(o: Option<Json>) -> Option<JsonView> {
    match o {
        Some(v) => Some(v@),
        None => None,
    }
}

/// The view of an optional string.
pub open spec fn opt_string_view(o: Option<String>) -> Option<Seq<char>> {
    match o {
        Some(v) => Some(v@),
        None => None,
    }
}

/// The character sequences of a list of strings.
pub open spec fn string_views(items: Seq<String>) -> Seq<Seq<char>> {
    Seq::new(items.len(), |i: int| items[i]@)
}

/// Moves a `serde_json` value into the library's own, variant for variant; a number
/// becomes the text that `serde_json` writes for it.
#[verifier::external_body]
fn json_from_serde(value: serde_json::Value) -> Json {
    match value {
        serde_json::Value::Null => Json::Null,
        serde_json::Value::Bool(b) => Json::Bool(b),
        serde_json::Value::Number(n) => Json::Number(n.to_string()),
        serde_json::Value::String(s) => Json::String(s),
        serde_json::Value::Array(items) => Json::Array(items.into_iter().map(json_from_serde).collect()),
        serde_json::Value::Object(map) => Json::Object(map.into_iter().map(|(k, v)| (k, json_from_serde(v))).collect()),
    }
}

/// Moves the library's value back into a `serde_json` one, variant for variant; a number's
/// text is read back by `serde_json::Number`'s `FromStr`.
#[verifier::external_body]
fn json_to_serde(value: &Json) -> serde_json::Value {
    match value {
        Json::Null => serde_json::Value::Null,
        Json::Bool(b) => serde_json::Value::Bool(*b),
        Json::Number(n) => n.parse::<serde_json::Number>().map(serde_json::Value::Number).unwrap_or(serde_json::Value::Null),
        Json::String(s) => serde_json::Value::String(s.clone()),
        Json::Array(items) => serde_json::Value::Array(items.iter().map(json_to_serde).collect()),
        Json::Object(entries) => serde_json::Value::Object(entries.iter().map(|(k, v)| (k.clone(), json_to_serde(v))).collect()),
    }
}

/// `serde_json::from_str::<serde_json::Value>`: the JSON value written in `text`, or
/// `None` when `text` is not JSON. Which texts it accepts and what it reads is named
/// (`serde_json_parse`), not stated.
#[verifier::external_body]
pub(crate) fn parse_json(text: &str) -> (r: Option<Json>)
    ensures
        opt_json_view(r) == serde_json_parse(text@),
{
    serde_json::from_str::<serde_json::Value>(text).ok().map(json_from_serde)
}

/// `serde_json::to_string_pretty`: `value` written as indented JSON, after it is moved into
/// `serde_json`'s own value (objects then list their keys in sorted order, a later entry
/// replaces an earlier one of the same key, and a number text that `serde_json` does not
/// read becomes `null`). A `Value` always serialises (its map keys are strings) and the
/// output is an in-memory buffer, so it never fails. The text is named
/// (`serde_json_pretty`), not stated.
#[verifier::external_body]
pub(crate) fn to_string_pretty(value: &Json) -> (r: Option<String>)
    ensures
        r is Some,
        r matches Some(t) ==> t@ == serde_json_pretty(value@),
{
    serde_json::to_string_pretty(&json_to_serde(value)).ok()
}

/// `serde_json::to_string` on a list of strings: the JSON array that holds them, written
/// by the compact formatter (see `json_string_list`). Strings always serialise and the
/// output is an in-memory buffer, so it never fails.
#[verifier::external_body]
pub(crate) fn string_list_json(items: &[String]) -> (r: Option<String>)
    ensures
        r is Some,
        r matches Some(t) ==> t@ == json_string_list(string_views(items@)),
{
    serde_json::to_string(items).ok()
}

} // verus!
