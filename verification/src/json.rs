//! A JSON value model built by the conversions, and the two questions about
//! JSON text that the library asks `serde_json`.

use vstd::prelude::*;

verus! {

/// A JSON number as the conversions produce or carry it.
#[derive(Debug, PartialEq)]
pub enum JsonNumber {
    /// A non-negative integer.
    Unsigned(u64),
    /// A signed integer.
    Signed(i64),
    /// Any other number, kept as its JSON literal text.
    Text(String),
}

/// A JSON value. Objects keep their members in insertion order.
#[derive(Debug, PartialEq)]
pub enum JsonValue {
    Null,
    Bool(bool),
    Number(JsonNumber),
    Str(String),
    Array(Vec<JsonValue>),
    Object(Vec<(String, JsonValue)>),
    /// JSON text that is known to parse, embedded as the value it denotes.
    Raw(String),
}

/// Mathematical model of [`JsonNumber`].
pub enum JsonNumberV {
    Unsigned(u64),
    Signed(i64),
    Text(Seq<char>),
}

/// Mathematical model of [`JsonValue`].
pub enum JsonV {
    Null,
    Bool(bool),
    Number(JsonNumberV),
    Str(Seq<char>),
    Array(Seq<JsonV>),
    Object(Seq<(Seq<char>, JsonV)>),
    Raw(Seq<char>),
}

pub open spec fn number_view(n: JsonNumber) -> JsonNumberV {
    match n {
        JsonNumber::Unsigned(u) => JsonNumberV::Unsigned(u),
        JsonNumber::Signed(i) => JsonNumberV::Signed(i),
        JsonNumber::Text(t) => JsonNumberV::Text(t@),
    }
}

pub open spec fn json_view(v: JsonValue) -> JsonV
    decreases v,
{
    match v {
        JsonValue::Null => JsonV::Null,
        JsonValue::Bool(b) => JsonV::Bool(b),
        JsonValue::Number(n) => JsonV::Number(number_view(n)),
        JsonValue::Str(s) => JsonV::Str(s@),
        JsonValue::Array(items) => JsonV::Array(
            Seq::new(
                items@.len(),
                |i: int|
                    if 0 <= i < items@.len() {
                        proof {
                        assert(decreases_to!(items => items@));
                            assert(decreases_to!(items@ => items@[i]));
                        }
                        json_view(items@[i])
                    } else {
                        JsonV::Null
                    },
            ),
        ),
        JsonValue::Object(members) => JsonV::Object(
            Seq::new(
                members@.len(),
                |i: int|
                    if 0 <= i < members@.len() {
                        proof {
                        assert(decreases_to!(members => members@));
                            assert(decreases_to!(members@ => members@[i]));
                            assert(decreases_to!(members@[i] => members@[i].1));
                        }
                        (members@[i].0@, json_view(members@[i].1))
                    } else {
                        (Seq::empty(), JsonV::Null)
                    },
            ),
        ),
        JsonValue::Raw(t) => JsonV::Raw(t@),
    }
}

/// The model of an object is the sequence of its members' models.
pub proof fn lemma_object_view(members: Vec<(String, JsonValue)>)
    ensures
        json_view(JsonValue::Object(members)) == JsonV::Object(
            members@.map_values(|m: (String, JsonValue)| (m.0@, json_view(m.1))),
        ),
{
    let v = json_view(JsonValue::Object(members));
    if let JsonV::Object(ms) = v {
        assert(ms =~= members@.map_values(|m: (String, JsonValue)| (m.0@, json_view(m.1))));
    }
}

/// The model of an array is the sequence of its items' models.
pub proof fn lemma_array_view(items: Vec<JsonValue>)
    ensures
        json_view(JsonValue::Array(items)) == JsonV::Array(
            items@.map_values(|x: JsonValue| json_view(x)),
        ),
{
    let v = json_view(JsonValue::Array(items));
    if let JsonV::Array(xs) = v {
        assert(xs =~= items@.map_values(|x: JsonValue| json_view(x)));
    }
}

/// An object with the single member `key: value`.
pub fn object1(key: &str, value: JsonValue) -> (res: JsonValue)
    ensures
        json_view(res) == JsonV::Object(seq![(key@, json_view(value))]),
{
    let ghost v = json_view(value);
    let mut members: Vec<(String, JsonValue)> = Vec::new();
    members.push((String::from_str(key), value));
    proof {
        lemma_object_view(members);
        assert(members@.map_values(|m: (String, JsonValue)| (m.0@, json_view(m.1))) =~= seq![(key@, v)]);
    }
    JsonValue::Object(members)
}

/// An object with the members `k1: v1, k2: v2`.
pub fn object2(k1: &str, v1: JsonValue, k2: &str, v2: JsonValue) -> (res: JsonValue)
    ensures
        json_view(res) == JsonV::Object(seq![(k1@, json_view(v1)), (k2@, json_view(v2))]),
{
    let ghost a = json_view(v1);
    let ghost b = json_view(v2);
    let mut members: Vec<(String, JsonValue)> = Vec::new();
    members.push((String::from_str(k1), v1));
    members.push((String::from_str(k2), v2));
    proof {
        lemma_object_view(members);
        assert(members@.map_values(|m: (String, JsonValue)| (m.0@, json_view(m.1))) =~= seq![(k1@, a), (k2@, b)]);
    }
    JsonValue::Object(members)
}

/// An object with the members `k1: v1, k2: v2, k3: v3`.
pub fn object3(k1: &str, v1: JsonValue, k2: &str, v2: JsonValue, k3: &str, v3: JsonValue) -> (res: JsonValue)
    ensures
        json_view(res) == JsonV::Object(
            seq![(k1@, json_view(v1)), (k2@, json_view(v2)), (k3@, json_view(v3))],
        ),
{
    let ghost a = json_view(v1);
    let ghost b = json_view(v2);
    let ghost c = json_view(v3);
    let mut members: Vec<(String, JsonValue)> = Vec::new();
    members.push((String::from_str(k1), v1));
    members.push((String::from_str(k2), v2));
    members.push((String::from_str(k3), v3));
    proof {
        lemma_object_view(members);
        assert(members@.map_values(|m: (String, JsonValue)| (m.0@, json_view(m.1)))
            =~= seq![(k1@, a), (k2@, b), (k3@, c)]);
    }
    JsonValue::Object(members)
}

/// An array with the single item `value`.
pub fn array1(value: JsonValue) -> (res: JsonValue)
    ensures
        json_view(res) == JsonV::Array(seq![json_view(value)]),
{
    let ghost v = json_view(value);
    let mut items: Vec<JsonValue> = Vec::new();
    items.push(value);
    proof {
        lemma_array_view(items);
        assert(items@.map_values(|x: JsonValue| json_view(x)) =~= seq![v]);
    }
    JsonValue::Array(items)
}

/// A JSON string holding `s`.
pub fn text_value(s: &str) -> (res: JsonValue)
    ensures
        json_view(res) == JsonV::Str(s@),
{
    JsonValue::Str(String::from_str(s))
}

impl DeepView for JsonValue {
    type V = JsonV;

    open spec fn deep_view(&self) -> JsonV {
        json_view(*self)
    }
}

/// The value of the first member named `key` among `ms`, if any.
pub open spec fn first_member(ms: Seq<(Seq<char>, JsonV)>, key: Seq<char>) -> Option<JsonV>
    decreases ms.len(),
{
    if ms.len() == 0 {
        None
    } else if ms[0].0 == key {
        Some(ms[0].1)
    } else {
        first_member(ms.drop_first(), key)
    }
}

/// The value of the member `key` of an object (the first, where the name
/// repeats); `None` for a missing member or a value that is no object.
pub open spec fn member_value(v: JsonV, key: Seq<char>) -> Option<JsonV> {
    match v {
        JsonV::Object(ms) => first_member(ms, key),
        _ => None,
    }
}

/// The item at index `i` of an array; `None` past its end or for a value
/// that is no array.
pub open spec fn array_item(v: JsonV, i: int) -> Option<JsonV> {
    match v {
        JsonV::Array(xs) => if 0 <= i < xs.len() {
            Some(xs[i])
        } else {
            None
        },
        _ => None,
    }
}

/// Looking past a member with another name.
pub proof fn lemma_first_member_skip(ms: Seq<(Seq<char>, JsonV)>, key: Seq<char>)
    requires
        ms.len() > 0,
        ms[0].0 != key,
    ensures
        first_member(ms, key) == first_member(ms.drop_first(), key),
{
}

/// A lower-case hexadecimal digit.
pub open spec fn hex_digit(n: int) -> char {
    if n < 10 {
        (48 + n) as char
    } else {
        (87 + n) as char
    }
}

/// How a JSON string literal writes one character: `"` and `\` behind a
/// backslash; backspace, tab, line feed, form feed and carriage return as
/// `\b`, `\t`, `\n`, `\f`, `\r`; the other characters below U+0020 as
/// `\u00` and two lower-case hexadecimal digits; every other character as
/// itself.
pub open spec fn json_char_escape(c: char) -> Seq<char> {
    if c == '"' {
        seq!['\\', '"']
    } else if c == '\\' {
        seq!['\\', '\\']
    } else if c == '\u{8}' {
        seq!['\\', 'b']
    } else if c == '\t' {
        seq!['\\', 't']
    } else if c == '\n' {
        seq!['\\', 'n']
    } else if c == '\u{c}' {
        seq!['\\', 'f']
    } else if c == '\r' {
        seq!['\\', 'r']
    } else if (c as int) < 0x20 {
        seq!['\\', 'u', '0', '0', hex_digit((c as int) / 16), hex_digit((c as int) % 16)]
    } else {
        seq![c]
    }
}

/// The characters `s` with each written as a JSON string literal writes it.
pub open spec fn json_escaped(s: Seq<char>) -> Seq<char>
    decreases s.len(),
{
    if s.len() == 0 {
        Seq::empty()
    } else {
        json_escaped(s.drop_last()) + json_char_escape(s.last())
    }
}

/// The JSON string literal (quotes and escapes included) that `serde_json`
/// writes for the characters `s`.
pub open spec fn json_string_literal(s: Seq<char>) -> Seq<char> {
    seq!['"'] + json_escaped(s) + seq!['"']
}

/// Whether `serde_json` accepts the characters `s` as the text of one JSON value.
pub uninterp spec fn is_json_text(s: Seq<char>) -> bool;

/// `serde_json::to_string` on a string slice: the quoted and escaped JSON
/// string literal for `s`, as `json_string_literal` spells it out.
/// Serialising a `str` into memory cannot fail, so the error arm is never
/// taken.
#[verifier::external_body]
pub(crate) fn json_quote(s: &str) -> (res: String)
    ensures
        res@ == json_string_literal(s@),
{
    serde_json::to_string(s).unwrap_or_default()
}

/// `serde_json::from_str::<serde_json::Value>`, asked only whether it succeeds:
/// the contract claims that the answer is the one named by `is_json_text`.
#[verifier::external_body]
pub(crate) fn parses_as_json(s: &str) -> (res: bool)
    ensures
        res == is_json_text(s@),
{
    serde_json::from_str::<serde_json::Value>(s).is_ok()
}

impl JsonNumber {
    /// An independent copy of this number.
    pub fn duplicate(&self) -> (res: JsonNumber)
        ensures
            number_view(res) == number_view(*self),
    {
        match self {
            JsonNumber::Unsigned(u) => JsonNumber::Unsigned(*u),
            JsonNumber::Signed(i) => JsonNumber::Signed(*i),
            JsonNumber::Text(t) => JsonNumber::Text(t.clone()),
        }
    }
}

impl JsonValue {
    pub open spec fn view(&self) -> JsonV {
        json_view(*self)
    }

    /// An independent deep copy of this value.
    pub fn duplicate(&self) -> (res: JsonValue)
        ensures
            json_view(res) == json_view(*self),
        decreases self,
    {
        match self {
            JsonValue::Null => JsonValue::Null,
            JsonValue::Bool(b) => JsonValue::Bool(*b),
            JsonValue::Number(n) => JsonValue::Number(n.duplicate()),
            JsonValue::Str(s) => JsonValue::Str(s.clone()),
            JsonValue::Raw(t) => JsonValue::Raw(t.clone()),
            JsonValue::Array(items) => {
                let mut out: Vec<JsonValue> = Vec::new();
                let n = items.len();
                for i in 0..n
                    invariant
                        n == items@.len(),
                        *self == JsonValue::Array(*items),
                        out@.len() == i,
                        forall|j: int| 0 <= j < i ==> json_view(#[trigger] out@[j]) == json_view(items@[j]),
                {
                    proof {
                        assert(decreases_to!(*self => self->Array_0));
                        assert(decreases_to!(items => items@));
                        assert(decreases_to!(items@ => items@[i as int]));
                    }
                    let d = items[i].duplicate();
                    out.push(d);
                }
                let res = JsonValue::Array(out);
                assert(json_view(res) == json_view(*self)) by {
                    if let JsonV::Array(a) = json_view(res) {
                        if let JsonV::Array(b) = json_view(*self) {
                            assert(a =~= b);
                        }
                    }
                }
                res
            },
            JsonValue::Object(members) => {
                let mut out: Vec<(String, JsonValue)> = Vec::new();
                let n = members.len();
                for i in 0..n
                    invariant
                        n == members@.len(),
                        *self == JsonValue::Object(*members),
                        out@.len() == i,
                        forall|j: int|
                            0 <= j < i ==> (#[trigger] out@[j]).0@ == members@[j].0@ && json_view(out@[j].1)
                                == json_view(members@[j].1),
                {
                    proof {
                        assert(decreases_to!(*self => self->Object_0));
                        assert(decreases_to!(members => members@));
                        assert(decreases_to!(members@ => members@[i as int]));
                        assert(decreases_to!(members@[i as int] => members@[i as int].1));
                    }
                    let k = members[i].0.clone();
                    let d = members[i].1.duplicate();
                    out.push((k, d));
                }
                let res = JsonValue::Object(out);
                assert(json_view(res) == json_view(*self)) by {
                    if let JsonV::Object(a) = json_view(res) {
                        if let JsonV::Object(b) = json_view(*self) {
                            assert(a =~= b);
                        }
                    }
                }
                res
            },
        }
    }
}

} // verus!
