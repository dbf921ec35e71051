//! JSON documents as trees, and what is read from them.
use crate::encode;
use crate::text;
use crate::text::same_text;
use vstd::prelude::*;

verus! {

/// A JSON value.
#[derive(Debug)]
pub enum Json {
    Null,
    Bool(bool),
    /// An integer from 0 on.
    Unsigned(u64),
    /// An integer below 0.
    Negative(i64),
    /// Any other number. Nothing here reads one, so its value is not kept.
    Fraction,
    Text(String),
    Array(Vec<Json>),
    /// The entries of an object; no key stands in it twice.
    Object(Vec<(String, Json)>),
}

/// A JSON value over character sequences.
pub enum JsonView {
    Null,
    Bool(bool),
    Unsigned(u64),
    Negative(i64),
    Fraction,
    Text(Seq<char>),
    Array(Seq<JsonView>),
    Object(Seq<(Seq<char>, JsonView)>),
}

/// A JSON value with its text as character sequences.
pub open spec fn json_tree(j: Json) -> JsonView
    decreases j,
{
    match j {
        Json::Null => JsonView::Null,
        Json::Bool(b) => JsonView::Bool(b),
        Json::Unsigned(n) => JsonView::Unsigned(n),
        Json::Negative(n) => JsonView::Negative(n),
        Json::Fraction => JsonView::Fraction,
        Json::Text(s) => JsonView::Text(s@),
        Json::Array(a) => JsonView::Array(
            Seq::new(
                a@.len(),
                |i: int|
                    if 0 <= i < a@.len() {
                        json_tree(a@[i])
                    } else {
                        JsonView::Null
                    },
            ),
        ),
        Json::Object(o) => JsonView::Object(
            Seq::new(
                o@.len(),
                |i: int|
                    if 0 <= i < o@.len() {
                        (o@[i].0@, json_tree(o@[i].1))
                    } else {
                        (Seq::empty(), JsonView::Null)
                    },
            ),
        ),
    }
}

impl View for Json {
    type V = JsonView;

    open spec fn view(&self) -> JsonView {
        json_tree(*self)
    }
}

/// The value of the first entry from `i` on that has this key.
pub open spec fn entry_from(
    entries: Seq<(Seq<char>, JsonView)>,
    key: Seq<char>,
    i: int,
) -> Option<JsonView>
    decreases entries.len() - i,
{
    if i < 0 || i >= entries.len() {
        None
    } else if entries[i].0 == key {
        Some(entries[i].1)
    } else {
        entry_from(entries, key, i + 1)
    }
}

impl JsonView {
    /// The value behind a key; `None` where the value is no object or has no
    /// such key.
    pub open spec fn get(self, key: Seq<char>) -> Option<JsonView> {
        match self {
            JsonView::Object(entries) => entry_from(entries, key, 0),
            _ => None,
        }
    }

    /// The value behind a key, `Null` where there is none.
    pub open spec fn field(self, key: Seq<char>) -> JsonView {
        match self.get(key) {
            Some(v) => v,
            None => JsonView::Null,
        }
    }

    pub open spec fn as_text(self) -> Option<Seq<char>> {
        match self {
            JsonView::Text(s) => Some(s),
            _ => None,
        }
    }

    /// The text of the value, empty where it is no text.
    pub open spec fn text_or_empty(self) -> Seq<char> {
        match self {
            JsonView::Text(s) => s,
            _ => Seq::empty(),
        }
    }

    pub open spec fn as_array(self) -> Option<Seq<JsonView>> {
        match self {
            JsonView::Array(a) => Some(a),
            _ => None,
        }
    }

    /// The items of the value, none where it is no array.
    pub open spec fn items(self) -> Seq<JsonView> {
        match self {
            JsonView::Array(a) => a,
            _ => Seq::empty(),
        }
    }

    /// The number of the value where it is an integer that an `i64` can hold.
    pub open spec fn as_i64(self) -> Option<i64> {
        match self {
            JsonView::Unsigned(n) => if n <= i64::MAX {
                Some(n as i64)
            } else {
                None
            },
            JsonView::Negative(n) => Some(n),
            _ => None,
        }
    }

    /// The number of the value where it is an integer from 0 on.
    pub open spec fn as_u64(self) -> Option<u64> {
        match self {
            JsonView::Unsigned(n) => Some(n),
            _ => None,
        }
    }

    /// The number of the value, 0 where it is no integer from 0 on.
    pub open spec fn u64_or_zero(self) -> u64 {
        match self {
            JsonView::Unsigned(n) => n,
            _ => 0,
        }
    }

    /// The number of the value, `other` where an `i64` cannot hold it.
    pub open spec fn i64_or(self, other: i64) -> i64 {
        match self.as_i64() {
            Some(n) => n,
            None => other,
        }
    }

    /// Whether the value is `true`.
    pub open spec fn is_true(self) -> bool {
        self == JsonView::Bool(true)
    }
}

/// An optional reference to a value, as an optional value.
pub open spec fn opt_view(o: Option<&Json>) -> Option<JsonView> {
    match o {
        Some(j) => Some(j@),
        None => None,
    }
}

/// The value behind an optional reference, `Null` where there is none.
pub open spec fn view_or_null(o: Option<&Json>) -> JsonView {
    match o {
        Some(j) => j@,
        None => JsonView::Null,
    }
}

/// The views of the items of a vector.
pub open spec fn views(a: Seq<Json>) -> Seq<JsonView> {
    a.map_values(|j: Json| j@)
}

impl Json {
    /// The value behind a key.
    pub fn get(&self, key: &str) -> (r: Option<&Json>)
        ensures
            opt_view(r) == self@.get(key@),
    {
        match self {
            Json::Object(entries) => {
                let ghost all = self@->Object_0;
                let mut i: usize = 0;
                while i < entries.len()
                    invariant
                        self@ == JsonView::Object(all),
                        all.len() == entries@.len(),
                        forall|k: int|
                            0 <= k < all.len() ==> (#[trigger] all[k]) == (
                                entries@[k].0@,
                                entries@[k].1@,
                            ),
                        0 <= i <= entries@.len(),
                        entry_from(all, key@, 0) == entry_from(all, key@, i as int),
                    decreases entries@.len() - i,
                {
                    assert(all[i as int] == (entries@[i as int].0@, entries@[i as int].1@));
                    if same_text(entries[i].0.as_str(), key) {
                        return Some(&entries[i].1);
                    }
                    i = i + 1;
                }
                None
            },
            _ => None,
        }
    }

    /// The value behind a key, and then behind another.
    pub fn get2(&self, key: &str, inner: &str) -> (r: Option<&Json>)
        ensures
            opt_view(r) == self@.field(key@).get(inner@),
    {
        match self.get(key) {
            Some(v) => v.get(inner),
            None => None,
        }
    }

    pub fn as_str(&self) -> (r: Option<&str>)
        ensures
            match r {
                Some(s) => self@.as_text() == Some(s@),
                None => self@.as_text() is None,
            },
    {
        match self {
            Json::Text(s) => Some(s.as_str()),
            _ => None,
        }
    }

    pub fn as_array(&self) -> (r: Option<&Vec<Json>>)
        ensures
            match r {
                Some(a) => self@.as_array() == Some(views(a@)),
                None => self@.as_array() is None,
            },
    {
        match self {
            Json::Array(a) => {
                assert(self@->Array_0 == views(a@));
                Some(a)
            },
            _ => None,
        }
    }

    pub fn as_i64(&self) -> (r: Option<i64>)
        ensures
            r == self@.as_i64(),
    {
        match self {
            Json::Unsigned(n) => if *n <= i64::MAX as u64 {
                Some(*n as i64)
            } else {
                None
            },
            Json::Negative(n) => Some(*n),
            _ => None,
        }
    }

    pub fn as_u64(&self) -> (r: Option<u64>)
        ensures
            r == self@.as_u64(),
    {
        match self {
            Json::Unsigned(n) => Some(*n),
            _ => None,
        }
    }

    /// Whether the value is `true`.
    pub fn is_true(&self) -> (r: bool)
        ensures
            r == self@.is_true(),
    {
        match self {
            Json::Bool(b) => *b,
            _ => false,
        }
    }

    pub fn is_null(&self) -> (r: bool)
        ensures
            r == (self@ is Null),
    {
        match self {
            Json::Null => true,
            _ => false,
        }
    }
}

/// The text behind a key, empty where there is none.
pub fn text_at(j: Option<&Json>) -> (r: String)
    ensures
        r@ == view_or_null(j).text_or_empty(),
{
    match j {
        Some(v) => match v.as_str() {
            Some(s) => text::owned(s),
            None => String::new(),
        },
        None => String::new(),
    }
}

/// An integer behind a key, `other` where there is none.
pub fn i64_at(j: Option<&Json>, other: i64) -> (r: i64)
    ensures
        r == view_or_null(j).i64_or(other),
{
    match j {
        Some(v) => match v.as_i64() {
            Some(n) => n,
            None => other,
        },
        None => other,
    }
}

/// The items behind a key, `None` where there is no array.
pub fn array_at(j: Option<&Json>) -> (r: Option<&Vec<Json>>)
    ensures
        match r {
            Some(a) => view_or_null(j).as_array() == Some(views(a@)),
            None => view_or_null(j).as_array() is None,
        },
{
    match j {
        Some(v) => v.as_array(),
        None => None,
    }
}

/// The document that a text denotes as JSON; `None` where it is not JSON.
pub uninterp spec fn json_of(text: Seq<char>) -> Option<JsonView>;

/// `serde_json::Value`.
#[verifier::external_type_specification]
#[verifier::external_body]
pub struct ExValue(serde_json::Value);

/// A `serde_json::Value` as a tree of this library, variant by variant. What it
/// gives is stated where a document is parsed.
#[verifier::external_body]
fn from_value(v: serde_json::Value) -> (r: Json)
{
    match v {
        serde_json::Value::Null => Json::Null,
        serde_json::Value::Bool(b) => Json::Bool(b),
        serde_json::Value::Number(n) => match (n.as_u64(), n.as_i64()) {
            (Some(u), _) => Json::Unsigned(u),
            (None, Some(i)) => Json::Negative(i),
            (None, None) => Json::Fraction,
        },
        serde_json::Value::String(s) => Json::Text(s),
        serde_json::Value::Array(a) => Json::Array(a.into_iter().map(from_value).collect()),
        serde_json::Value::Object(o) => Json::Object(
            o.into_iter().map(|(k, v)| (k, from_value(v))).collect(),
        ),
    }
}

/// `serde_json::from_str` into a `Value`: the document depends on the text
/// alone.
#[verifier::external_body]
pub(crate) fn parse_json(text: &str) -> (r: Option<Json>)
    ensures
        match r {
            Some(j) => json_of(text@) == Some(j@),
            None => json_of(text@) is None,
        },
{
    serde_json::from_str(text).ok().map(from_value)
}

/// A small hexadecimal digit.
pub open spec fn small_hex(d: int) -> char {
    text::ascii_lower(encode::hex_char(d))
}

/// A character as it stands inside a JSON string.
pub open spec fn json_escaped(c: char) -> Seq<char> {
    if c == '"' {
        seq!['\\', '"']
    } else if c == '\\' {
        seq!['\\', '\\']
    } else if c == '\u{8}' {
        seq!['\\', 'b']
    } else if c == '\u{c}' {
        seq!['\\', 'f']
    } else if c == '\n' {
        seq!['\\', 'n']
    } else if c == '\r' {
        seq!['\\', 'r']
    } else if c == '\t' {
        seq!['\\', 't']
    } else if 32 > c as int {
        seq!['\\', 'u', '0', '0', small_hex(c as int / 16), small_hex(c as int % 16)]
    } else {
        seq![c]
    }
}

/// Text as the inside of a JSON string.
pub open spec fn json_inner(s: Seq<char>) -> Seq<char>
    decreases s.len(),
{
    if s.len() == 0 {
        Seq::empty()
    } else {
        json_inner(s.drop_last()) + json_escaped(s.last())
    }
}

/// Text as a JSON string.
pub open spec fn json_quoted(s: Seq<char>) -> Seq<char> {
    seq!['"'] + json_inner(s) + seq!['"']
}

/// `serde_json::to_string` of a string: the text between quotes, with quotes,
/// backslashes and the control characters below the space escaped. Writing a
/// string to memory does not fail.
#[verifier::external_body]
pub(crate) fn quote_json(s: &str) -> (r: String)
    ensures
        r@ == json_quoted(s@),
{
    match serde_json::to_string(s) {
        Ok(t) => t,
        Err(_) => String::new(),
    }
}

/// What stands behind a key is the value of the first entry of that key; behind a
/// key that no entry has, and behind any key of a value that is no object, stands
/// nothing.
pub proof fn law_field_is_the_first_entry(
    entries: Seq<(Seq<char>, JsonView)>,
    key: Seq<char>,
    i: int,
)
    requires
        0 <= i <= entries.len(),
        forall|k: int| 0 <= k < i ==> (#[trigger] entries[k]).0 != key,
        i < entries.len() ==> entries[i].0 == key,
    ensures
        i < entries.len() ==> JsonView::Object(entries).get(key) == Some(entries[i].1)
            && JsonView::Object(entries).field(key) == entries[i].1,
        i == entries.len() ==> JsonView::Object(entries).get(key) is None && JsonView::Object(
            entries,
        ).field(key) is Null,
        forall|j: JsonView| !(j is Object) ==> (#[trigger] j.get(key)) is None && j.field(
            key,
        ) is Null,
{
    lemma_entry_from(entries, key, 0, i);
}

/// A search for a key passes over the entries of other keys.
proof fn lemma_entry_from(entries: Seq<(Seq<char>, JsonView)>, key: Seq<char>, from: int, i: int)
    requires
        0 <= from <= i <= entries.len(),
        forall|k: int| from <= k < i ==> (#[trigger] entries[k]).0 != key,
        i < entries.len() ==> entries[i].0 == key,
    ensures
        entry_from(entries, key, from) == if i < entries.len() {
            Some(entries[i].1)
        } else {
            None
        },
    decreases i - from,
{
    if from < i {
        assert(entries[from].0 != key);
        lemma_entry_from(entries, key, from + 1, i);
    }
}

/// What is read from a value: text from text, items from an array, `true` from
/// `true`, and an integer from an integer that fits; anything else gives nothing.
pub proof fn law_values_are_read_as_they_are(
    j: JsonView,
    s: Seq<char>,
    a: Seq<JsonView>,
    n: u64,
    i: i64,
    other: i64,
)
    ensures
        j.as_text() == Some(s) <==> j == JsonView::Text(s),
        j == JsonView::Text(s) ==> j.text_or_empty() == s,
        !(j is Text) ==> j.as_text() is None && j.text_or_empty().len() == 0,
        j.as_array() == Some(a) <==> j == JsonView::Array(a),
        j == JsonView::Array(a) ==> j.items() == a,
        !(j is Array) ==> j.as_array() is None && j.items().len() == 0,
        j.is_true() <==> j == JsonView::Bool(true),
        j.as_u64() == Some(n) <==> j == JsonView::Unsigned(n),
        j == JsonView::Unsigned(n) ==> j.u64_or_zero() == n,
        !(j is Unsigned) ==> j.as_u64() is None && j.u64_or_zero() == 0,
        j == JsonView::Negative(i) ==> j.as_i64() == Some(i) && j.i64_or(other) == i,
        j == JsonView::Unsigned(n) && n <= 0x7fff_ffff_ffff_ffff ==> j.i64_or(other) == n,
        j == JsonView::Unsigned(n) && n > 0x7fff_ffff_ffff_ffff ==> j.i64_or(other) == other,
        !(j is Unsigned) && !(j is Negative) ==> j.as_i64() is None && j.i64_or(other) == other,
{
}

} // verus!
