//! A plain model of JSON documents, with typed member access following the rules
//! that the wire formats use for missing, null and mistyped members.

use vstd::prelude::*;
use crate::text::{str_eq, signed_decimal, decimal, digit_char, i64_to_decimal, u64_to_decimal};

verus! {

/// A JSON number: its printed text, and its value when it is an integer in range.
#[derive(Clone, Debug, PartialEq, Eq)]
pub struct JsonNumber {
    /// The number as the parser prints it.
    pub text: String,
    /// The value, when the number is an integer within `i64`.
    pub signed: Option<i64>,
    /// The value, when the number is an integer within `u64`.
    pub unsigned: Option<u64>,
}

/// A JSON value.
#[derive(Debug)]
pub enum JsonValue {
    /// `null`.
    Null,
    /// `true` or `false`.
    Bool(bool),
    /// A number.
    Number(JsonNumber),
    /// A string.
    String(String),
    /// An array.
    Array(Vec<JsonValue>),
    /// An object, as its members in order.
    Object(Vec<(String, JsonValue)>),
}

/// The mathematical content of a JSON value.
pub enum Json {
    Null,
    Bool(bool),
    /// Printed text, value within `i64`, value within `u64`.
    Number(Seq<char>, Option<i64>, Option<u64>),
    Str(Seq<char>),
    Array(Seq<Json>),
    Object(Seq<(Seq<char>, Json)>),
}

pub open spec fn view_items(items: Seq<JsonValue>) -> Seq<Json>
    decreases items,
{
    if items.len() == 0 {
        Seq::empty()
    } else {
        seq![view_json(items[0])] + view_items(items.drop_first())
    }
}

pub open spec fn view_entries(entries: Seq<(String, JsonValue)>) -> Seq<(Seq<char>, Json)>
    decreases entries,
{
    if entries.len() == 0 {
        Seq::empty()
    } else {
        seq![(entries[0].0@, view_json(entries[0].1))] + view_entries(entries.drop_first())
    }
}

pub open spec fn view_json(v: JsonValue) -> Json
    decreases v,
{
    match v {
        JsonValue::Null => Json::Null,
        JsonValue::Bool(b) => Json::Bool(b),
        JsonValue::Number(n) => Json::Number(n.text@, n.signed, n.unsigned),
        JsonValue::String(s) => Json::Str(s@),
        JsonValue::Array(items) => Json::Array(view_items(items@)),
        JsonValue::Object(entries) => Json::Object(view_entries(entries@)),
    }
}

impl View for JsonValue {
    type V = Json;

    open spec fn view(&self) -> Json {
        view_json(*self)
    }
}

pub proof fn lemma_view_entries(entries: Seq<(String, JsonValue)>)
    ensures
        view_entries(entries).len() == entries.len(),
        forall|i: int| 0 <= i < entries.len() ==> #[trigger] view_entries(entries)[i]
            == (entries[i].0@, view_json(entries[i].1)),
    decreases entries.len(),
{
    if entries.len() > 0 {
        lemma_view_entries(entries.drop_first());
        assert forall|i: int| 0 <= i < entries.len() implies #[trigger] view_entries(entries)[i]
            == (entries[i].0@, view_json(entries[i].1)) by {
            if i > 0 {
                assert(entries.drop_first()[i - 1] == entries[i]);
            }
        }
    }
}

pub proof fn lemma_view_items(items: Seq<JsonValue>)
    ensures
        view_items(items).len() == items.len(),
        forall|i: int| 0 <= i < items.len() ==> #[trigger] view_items(items)[i] == view_json(items[i]),
    decreases items.len(),
{
    if items.len() > 0 {
        lemma_view_items(items.drop_first());
        assert forall|i: int| 0 <= i < items.len() implies #[trigger] view_items(items)[i]
            == view_json(items[i]) by {
            if i > 0 {
                assert(items.drop_first()[i - 1] == items[i]);
            }
        }
    }
}

pub proof fn lemma_view_entries_push(entries: Seq<(String, JsonValue)>, e: (String, JsonValue))
    ensures
        view_entries(entries.push(e)) == view_entries(entries).push((e.0@, view_json(e.1))),
{
    lemma_view_entries(entries);
    lemma_view_entries(entries.push(e));
    assert(view_entries(entries.push(e)) =~= view_entries(entries).push((e.0@, view_json(e.1))));
}

pub proof fn lemma_view_items_push(items: Seq<JsonValue>, e: JsonValue)
    ensures
        view_items(items.push(e)) == view_items(items).push(view_json(e)),
{
    lemma_view_items(items);
    lemma_view_items(items.push(e));
    assert(view_items(items.push(e)) =~= view_items(items).push(view_json(e)));
}

/// The result of parsing `bytes` as one JSON document with `serde_json`: the value, or
/// the parser's error message.
pub uninterp spec fn json_parse(bytes: Seq<u8>) -> Result<Json, Seq<char>>;

/// The parsed JSON tree of `serde_json`.
#[verifier::external_type_specification]
#[verifier::external_body]
pub struct ExSerdeJsonValue(serde_json::Value);

/// Converts a parsed `serde_json` tree node for node; numbers keep their printed text
/// and the results of `Number::as_i64` and `Number::as_u64`.
#[verifier::external_body]
fn value_from_serde(value: serde_json::Value) -> JsonValue {
    match value {
        serde_json::Value::Null => JsonValue::Null,
        serde_json::Value::Bool(b) => JsonValue::Bool(b),
        serde_json::Value::Number(n) => JsonValue::Number(
            JsonNumber { text: n.to_string(), signed: n.as_i64(), unsigned: n.as_u64() },
        ),
        serde_json::Value::String(s) => JsonValue::String(s),
        serde_json::Value::Array(a) => JsonValue::Array(a.into_iter().map(value_from_serde).collect()),
        serde_json::Value::Object(o) => JsonValue::Object(
            o.into_iter().map(|(k, v)| (k, value_from_serde(v))).collect(),
        ),
    }
}

/// `serde_json::from_slice::<serde_json::Value>`: parses one JSON document and converts
/// it node for node; on failure, the parser's error text.
#[verifier::external_body]
pub(crate) fn parse_json(bytes: &[u8]) -> (r: Result<JsonValue, String>)
    ensures
        match (r, json_parse(bytes@)) {
            (Ok(v), Ok(w)) => v@ == w,
            (Err(e), Err(m)) => e@ == m,
            _ => false,
        },
{
    match serde_json::from_slice::<serde_json::Value>(bytes) {
        Ok(v) => Ok(value_from_serde(v)),
        Err(e) => Err(e.to_string()),
    }
}

/// The value of the first member named `key`.
pub open spec fn lookup(entries: Seq<(Seq<char>, Json)>, key: Seq<char>) -> Option<Json>
    decreases entries.len(),
{
    if entries.len() == 0 {
        None
    } else if entries[0].0 == key {
        Some(entries[0].1)
    } else {
        lookup(entries.drop_first(), key)
    }
}

impl Json {
    /// The member `key` of an object; `None` for missing keys and other values.
    pub open spec fn get(self, key: Seq<char>) -> Option<Json> {
        match self {
            Json::Object(entries) => lookup(entries, key),
            _ => None,
        }
    }

    pub open spec fn as_str(self) -> Option<Seq<char>> {
        match self {
            Json::Str(s) => Some(s),
            _ => None,
        }
    }

    pub open spec fn as_i64(self) -> Option<i64> {
        match self {
            Json::Number(_, i, _) => i,
            _ => None,
        }
    }

    pub open spec fn as_u64(self) -> Option<u64> {
        match self {
            Json::Number(_, _, u) => u,
            _ => None,
        }
    }

    /// The string member `key`, when present and a string.
    pub open spec fn get_str(self, key: Seq<char>) -> Option<Seq<char>> {
        match self.get(key) {
            Some(m) => m.as_str(),
            None => None,
        }
    }

    /// An integer as this library prints it.
    pub open spec fn integer(i: int) -> Json {
        Json::Number(
            signed_decimal(i),
            if i64::MIN <= i <= i64::MAX { Some(i as i64) } else { None },
            if 0 <= i <= u64::MAX { Some(i as u64) } else { None },
        )
    }
}

/// The text of each string.
pub open spec fn strings_view(v: Seq<String>) -> Seq<Seq<char>> {
    v.map_values(|s: String| s@)
}

/// The text of each name/value pair.
pub open spec fn text_pairs(v: Seq<(String, String)>) -> Seq<(Seq<char>, Seq<char>)> {
    v.map_values(|p: (String, String)| (p.0@, p.1@))
}

/// A sequence of strings as a JSON array.
pub open spec fn str_array(ss: Seq<Seq<char>>) -> Json {
    Json::Array(ss.map_values(|s: Seq<char>| Json::Str(s)))
}

/// Whether a pair after the `i`th has the same name.
pub open spec fn named_later(pairs: Seq<(Seq<char>, Seq<char>)>, i: int) -> bool {
    exists|j: int| i < j < pairs.len() && #[trigger] pairs[j].0 == pairs[i].0
}

/// The pairs from the `i`th on that no later pair renames: for each name, its last value.
pub open spec fn last_values_from(pairs: Seq<(Seq<char>, Seq<char>)>, i: int) -> Seq<(Seq<char>, Seq<char>)>
    decreases pairs.len() - i,
{
    if i < 0 || i >= pairs.len() {
        Seq::empty()
    } else if named_later(pairs, i) {
        last_values_from(pairs, i + 1)
    } else {
        seq![pairs[i]] + last_values_from(pairs, i + 1)
    }
}

/// Name/value pairs as a map: each name once, with the last value given for it.
pub open spec fn last_values(pairs: Seq<(Seq<char>, Seq<char>)>) -> Seq<(Seq<char>, Seq<char>)> {
    last_values_from(pairs, 0)
}

/// Name/value pairs as a JSON object of strings, each name once with its last value.
pub open spec fn str_object(pairs: Seq<(Seq<char>, Seq<char>)>) -> Json {
    Json::Object(last_values(pairs).map_values(|p: (Seq<char>, Seq<char>)| (p.0, Json::Str(p.1))))
}

/// The names of pairs kept from the `i`th on are among the names from there on, and
/// each occurs once.
pub proof fn lemma_last_values_distinct(pairs: Seq<(Seq<char>, Seq<char>)>, i: int)
    requires
        0 <= i <= pairs.len(),
    ensures
        forall|k: int| 0 <= k < last_values_from(pairs, i).len() ==> exists|j: int| i <= j < pairs.len()
            && pairs[j] == #[trigger] last_values_from(pairs, i)[k] && !named_later(pairs, j),
        forall|a: int, b: int| 0 <= a < b < last_values_from(pairs, i).len()
            ==> (#[trigger] last_values_from(pairs, i)[a]).0 != (#[trigger] last_values_from(pairs, i)[b]).0,
    decreases pairs.len() - i,
{
    if i < pairs.len() {
        lemma_last_values_distinct(pairs, i + 1);
        let rest = last_values_from(pairs, i + 1);
        if !named_later(pairs, i) {
            let all = seq![pairs[i]] + rest;
            assert(last_values_from(pairs, i) == all);
            assert forall|k: int| 0 <= k < all.len() implies exists|j: int| i <= j < pairs.len()
                && pairs[j] == #[trigger] all[k] && !named_later(pairs, j) by {
                if k > 0 {
                    assert(all[k] == rest[k - 1]);
                    let j = choose|j: int| i + 1 <= j < pairs.len() && pairs[j] == rest[k - 1] && !named_later(pairs, j);
                    assert(pairs[j] == all[k]);
                } else {
                    assert(pairs[i] == all[0]);
                }
            }
            assert forall|a: int, b: int| 0 <= a < b < all.len() implies (#[trigger] all[a]).0 != (#[trigger] all[b]).0 by {
                if a == 0 {
                    assert(all[b] == rest[b - 1]);
                    let j = choose|j: int| i + 1 <= j < pairs.len() && pairs[j] == rest[b - 1] && !named_later(pairs, j);
                    if pairs[j].0 == pairs[i].0 {
                        assert(named_later(pairs, i));
                    }
                } else {
                    assert(all[a] == rest[a - 1]);
                    assert(all[b] == rest[b - 1]);
                }
            }
        }
    }
}

proof fn lemma_lookup_skip(entries: Seq<(String, JsonValue)>, i: int, key: Seq<char>)
    requires
        0 <= i < entries.len(),
        entries[i].0@ != key,
    ensures
        lookup(view_entries(entries.subrange(i, entries.len() as int)), key)
            == lookup(view_entries(entries.subrange(i + 1, entries.len() as int)), key),
{
    let s = entries.subrange(i, entries.len() as int);
    assert(s.drop_first() =~= entries.subrange(i + 1, entries.len() as int));
    assert(s[0] == entries[i]);
    let v = view_entries(s);
    assert(v == seq![(s[0].0@, view_json(s[0].1))] + view_entries(s.drop_first()));
    assert(v.drop_first() =~= view_entries(s.drop_first()));
}

impl JsonValue {
    /// The member `key` of an object; `None` for missing keys and other values.
    pub fn get(&self, key: &str) -> (r: Option<&JsonValue>)
        ensures
            r is Some == self@.get(key@) is Some,
            r matches Some(m) ==> m@ == self@.get(key@)->0,
    {
        match self {
            JsonValue::Object(entries) => {
                let mut i: usize = 0;
                assert(entries@.subrange(0, entries@.len() as int) =~= entries@);
                while i < entries.len()
                    invariant
                        i <= entries.len(),
                        self@.get(key@) == lookup(view_entries(entries@), key@),
                        lookup(view_entries(entries@), key@)
                            == lookup(view_entries(entries@.subrange(i as int, entries@.len() as int)), key@),
                    decreases entries.len() - i,
                {
                    if str_eq(entries[i].0.as_str(), key) {
                        let ghost s = entries@.subrange(i as int, entries@.len() as int);
                        assert(s[0] == entries@[i as int]);
                        return Some(&entries[i].1);
                    }
                    proof {
                        lemma_lookup_skip(entries@, i as int, key@);
                    }
                    i += 1;
                }
                None
            },
            _ => None,
        }
    }

    /// Moves the member `key` out of an object; `None` for missing keys and other values.
    pub fn take(self, key: &str) -> (r: Option<JsonValue>)
        ensures
            r is Some == self@.get(key@) is Some,
            r matches Some(m) ==> m@ == self@.get(key@)->0,
    {
        let ghost whole = self@;
        match self {
            JsonValue::Object(mut entries) => {
                let mut i: usize = 0;
                assert(entries@.subrange(0, entries@.len() as int) =~= entries@);
                while i < entries.len()
                    invariant
                        i <= entries.len(),
                        whole.get(key@) == lookup(view_entries(entries@), key@),
                        whole == self@,
                        lookup(view_entries(entries@), key@)
                            == lookup(view_entries(entries@.subrange(i as int, entries@.len() as int)), key@),
                    decreases entries.len() - i,
                {
                    if str_eq(entries[i].0.as_str(), key) {
                        let ghost s = entries@.subrange(i as int, entries@.len() as int);
                        assert(s[0] == entries@[i as int]);
                        let ghost found = entries@[i as int].1;
                        assert(lookup(view_entries(s), key@) == Some(view_json(found)));
                        let (_, value) = entries.swap_remove(i);
                        assert(value == found);
                        return Some(value);
                    }
                    proof {
                        lemma_lookup_skip(entries@, i as int, key@);
                    }
                    i += 1;
                }
                None
            },
            _ => None,
        }
    }

    /// Moves a field out of a record; see [`Json::field`].
    pub fn take_field(self, i: usize, key: &str) -> (r: Option<JsonValue>)
        ensures
            r is Some == self@.field(i as int, key@) is Some,
            r matches Some(m) ==> m@ == self@.field(i as int, key@)->0,
    {
        match self {
            JsonValue::Array(mut items) => {
                proof {
                    lemma_view_items(items@);
                }
                if i < items.len() { Some(items.remove(i)) } else { None }
            },
            other => other.take(key),
        }
    }

    /// The string this value holds, if it is a string.
    pub fn as_str(&self) -> (r: Option<&str>)
        ensures
            r is Some == self@.as_str() is Some,
            r matches Some(s) ==> s@ == self@.as_str()->0,
    {
        match self {
            JsonValue::String(s) => Some(s.as_str()),
            _ => None,
        }
    }

    /// The value as an `i64`, when it is an integer in range.
    pub fn as_i64(&self) -> (r: Option<i64>)
        ensures
            r == self@.as_i64(),
    {
        match self {
            JsonValue::Number(n) => n.signed,
            _ => None,
        }
    }

    /// The value as a `u64`, when it is a non-negative integer in range.
    pub fn as_u64(&self) -> (r: Option<u64>)
        ensures
            r == self@.as_u64(),
    {
        match self {
            JsonValue::Number(n) => n.unsigned,
            _ => None,
        }
    }

    /// Whether the value is an array.
    pub fn is_array(&self) -> (b: bool)
        ensures
            b == (self@ is Array),
    {
        match self {
            JsonValue::Array(_) => true,
            _ => false,
        }
    }

    /// A string value.
    pub fn from_str(s: &str) -> (v: JsonValue)
        ensures
            v@ == Json::Str(s@),
    {
        JsonValue::String(s.to_owned())
    }

    /// A string value.
    pub fn from_string(s: String) -> (v: JsonValue)
        ensures
            v@ == Json::Str(s@),
    {
        JsonValue::String(s)
    }

    /// A signed integer value.
    pub fn from_i64(i: i64) -> (v: JsonValue)
        ensures
            v@ == Json::integer(i as int),
    {
        let unsigned = if i >= 0 { Some(i as u64) } else { None };
        JsonValue::Number(JsonNumber { text: i64_to_decimal(i), signed: Some(i), unsigned })
    }

    /// An unsigned integer value.
    pub fn from_u64(u: u64) -> (v: JsonValue)
        ensures
            v@ == Json::integer(u as int),
    {
        let signed = if u <= 9_223_372_036_854_775_807u64 { Some(u as i64) } else { None };
        let text = u64_to_decimal(u);
        assert(signed_decimal(u as int) == decimal(u as nat));
        JsonValue::Number(JsonNumber { text, signed, unsigned: Some(u) })
    }

    /// An array of strings.
    pub fn from_strings(ss: &Vec<String>) -> (v: JsonValue)
        ensures
            v@ == str_array(strings_view(ss@)),
    {
        let mut items: Vec<JsonValue> = Vec::new();
        let mut i: usize = 0;
        while i < ss.len()
            invariant
                i <= ss.len(),
                view_items(items@) == ss@.subrange(0, i as int).map_values(|s: String| Json::Str(s@)),
            decreases ss.len() - i,
        {
            let item = JsonValue::from_str(ss[i].as_str());
            proof {
                lemma_view_items_push(items@, item);
            }
            items.push(item);
            i += 1;
            assert(view_items(items@) =~= ss@.subrange(0, i as int).map_values(|s: String| Json::Str(s@)));
        }
        assert(ss@.subrange(0, ss@.len() as int) =~= ss@);
        assert(ss@.map_values(|s: String| Json::Str(s@))
            =~= ss@.map_values(|s: String| s@).map_values(|s: Seq<char>| Json::Str(s)));
        JsonValue::Array(items)
    }

    /// An object of string members: each name once, with the last value given for it, in
    /// the order of those last values.
    pub fn from_string_pairs(pairs: &Vec<(String, String)>) -> (v: JsonValue)
        ensures
            v@ == str_object(text_pairs(pairs@)),
    {
        let ghost text = text_pairs(pairs@);
        let ghost f = |p: (Seq<char>, Seq<char>)| (p.0, Json::Str(p.1));
        let mut entries: Vec<(String, JsonValue)> = Vec::new();
        let mut i: usize = 0;
        assert(view_entries(entries@) =~= Seq::<(Seq<char>, Json)>::empty());
        while i < pairs.len()
            invariant
                i <= pairs.len(),
                text == text_pairs(pairs@),
                f == (|p: (Seq<char>, Seq<char>)| (p.0, Json::Str(p.1))),
                view_entries(entries@) + last_values_from(text, i as int).map_values(f)
                    == last_values_from(text, 0).map_values(f),
            decreases pairs.len() - i,
        {
            let mut later = false;
            let mut j: usize = i + 1;
            while j < pairs.len()
                invariant
                    i < j <= pairs.len(),
                    text == text_pairs(pairs@),
                    later == exists|k: int| i < k < j && #[trigger] text[k].0 == text[i as int].0,
                decreases pairs.len() - j,
            {
                if str_eq(pairs[j].0.as_str(), pairs[i].0.as_str()) {
                    assert(text[j as int].0 == text[i as int].0);
                    later = true;
                }
                j += 1;
            }
            assert(later == named_later(text, i as int));
            let ghost rest = last_values_from(text, i as int + 1);
            if !later {
                let key = pairs[i].0.clone();
                let item = JsonValue::from_str(pairs[i].1.as_str());
                proof {
                    lemma_view_entries_push(entries@, (key, item));
                    assert(text[i as int] == (pairs@[i as int].0@, pairs@[i as int].1@));
                    assert((seq![text[i as int]] + rest).map_values(f) =~= seq![f(text[i as int])] + rest.map_values(f));
                    assert(view_entries(entries@).push((key@, view_json(item))) + rest.map_values(f)
                        =~= view_entries(entries@) + (seq![text[i as int]] + rest).map_values(f));
                }
                entries.push((key, item));
            }
            i += 1;
        }
        assert(last_values_from(text, i as int).map_values(f) =~= Seq::<(Seq<char>, Json)>::empty());
        assert(view_entries(entries@) =~= last_values_from(text, 0).map_values(f));
        JsonValue::Object(entries)
    }
}

/// An object under construction: members are appended in order.
pub struct ObjectBuilder {
    entries: Vec<(String, JsonValue)>,
}

impl View for ObjectBuilder {
    type V = Seq<(Seq<char>, Json)>;

    closed spec fn view(&self) -> Seq<(Seq<char>, Json)> {
        view_entries(self.entries@)
    }
}

impl ObjectBuilder {
    pub fn new() -> (b: ObjectBuilder)
        ensures
            b@ == Seq::<(Seq<char>, Json)>::empty(),
    {
        ObjectBuilder { entries: Vec::new() }
    }

    /// Appends the member `key`.
    pub fn member(&mut self, key: &str, value: JsonValue)
        ensures
            final(self)@ == old(self)@.push((key@, value@)),
    {
        let k = key.to_owned();
        proof {
            lemma_view_entries_push(self.entries@, (k, value));
        }
        self.entries.push((k, value));
    }

    /// The finished object.
    pub fn build(self) -> (v: JsonValue)
        ensures
            v@ == Json::Object(self@),
    {
        JsonValue::Object(self.entries)
    }
}

// Records are read from the parsed tree of a document, field by field, as a `serde`
// derived `Deserialize` reads the same record from its text, with two differences that
// the tree cannot show: a member given twice has already been reduced to its last value
// (serde refuses the duplicate field), and errors are described in the words below
// rather than in serde's (which name the unexpected value and its line and column).

/// The message for a member of the wrong type.
pub open spec fn invalid_member(key: Seq<char>) -> Seq<char> {
    "invalid type for field `"@ + key + "`"@
}

/// The message for a required member that is absent.
pub open spec fn missing_member(key: Seq<char>) -> Seq<char> {
    "missing field `"@ + key + "`"@
}

pub(crate) fn invalid_member_text(key: &str) -> (m: String)
    ensures
        m@ == invalid_member(key@),
{
    let mut m = String::from_str("invalid type for field `");
    m.append(key);
    m.append("`");
    m
}

fn missing_member_text(key: &str) -> (m: String)
    ensures
        m@ == missing_member(key@),
{
    let mut m = String::from_str("missing field `");
    m.append(key);
    m.append("`");
    m
}

/// The message when a record given as an array has too few elements: how many it has,
/// and the `shape` it should have, such as `struct Envelope with 3 elements`.
pub open spec fn length_error(found: nat, shape: Seq<char>) -> Seq<char> {
    "invalid length "@ + decimal(found) + ", expected "@ + shape
}

/// The message when a record given as an array has more elements than fields.
pub open spec fn trailing_characters() -> Seq<char> {
    "trailing characters"@
}

fn length_error_text(found: usize, shape: &str) -> (m: String)
    ensures
        m@ == length_error(found as nat, shape@),
{
    let mut m = String::from_str("invalid length ");
    let n = u64_to_decimal(found as u64);
    m.append(n.as_str());
    m.append(", expected ");
    m.append(shape);
    m
}

impl Json {
    /// A field of a record: the member `key` of an object, or the `i`th element of an
    /// array, the other form a record may take.
    pub open spec fn field(self, i: int, key: Seq<char>) -> Option<Json> {
        match self {
            Json::Object(entries) => lookup(entries, key),
            Json::Array(items) => if 0 <= i < items.len() { Some(items[i]) } else { None },
            _ => None,
        }
    }

    /// Why a field with no default is absent: a missing member of an object, or too
    /// few elements of an array.
    pub open spec fn absent(self, key: Seq<char>, shape: Seq<char>) -> Seq<char> {
        match self {
            Json::Array(items) => length_error(items.len(), shape),
            _ => missing_member(key),
        }
    }

    /// Whether a record given as an array has more than `n` elements.
    pub open spec fn longer_than(self, n: nat) -> bool {
        self matches Json::Array(items) && items.len() > n
    }

    /// A string field with a default: absent gives the empty string.
    pub open spec fn string_or_default(self, i: int, key: Seq<char>) -> Result<Seq<char>, Seq<char>> {
        match self.field(i, key) {
            None => Ok(Seq::empty()),
            Some(Json::Str(s)) => Ok(s),
            Some(_) => Err(invalid_member(key)),
        }
    }

    /// A required string field.
    pub open spec fn required_string(self, i: int, key: Seq<char>, shape: Seq<char>) -> Result<Seq<char>, Seq<char>> {
        match self.field(i, key) {
            None => Err(self.absent(key, shape)),
            Some(Json::Str(s)) => Ok(s),
            Some(_) => Err(invalid_member(key)),
        }
    }

    /// An optional string field: `null` gives `None`, and so does an absent member; an
    /// array must have the element.
    pub open spec fn optional_string(self, i: int, key: Seq<char>, shape: Seq<char>) -> Result<Option<Seq<char>>, Seq<char>> {
        match self.field(i, key) {
            None => if self is Array { Err(self.absent(key, shape)) } else { Ok(None) },
            Some(Json::Null) => Ok(None),
            Some(Json::Str(s)) => Ok(Some(s)),
            Some(_) => Err(invalid_member(key)),
        }
    }

    /// A boolean field with a default: absent gives `false`.
    pub open spec fn bool_or_default(self, i: int, key: Seq<char>) -> Result<bool, Seq<char>> {
        match self.field(i, key) {
            None => Ok(false),
            Some(Json::Bool(b)) => Ok(b),
            Some(_) => Err(invalid_member(key)),
        }
    }

    /// A required boolean field.
    pub open spec fn required_bool(self, i: int, key: Seq<char>, shape: Seq<char>) -> Result<bool, Seq<char>> {
        match self.field(i, key) {
            None => Err(self.absent(key, shape)),
            Some(Json::Bool(b)) => Ok(b),
            Some(_) => Err(invalid_member(key)),
        }
    }

    /// A signed integer field with a default: absent gives 0.
    pub open spec fn i64_or_default(self, i: int, key: Seq<char>) -> Result<i64, Seq<char>> {
        match self.field(i, key) {
            None => Ok(0),
            Some(Json::Number(_, Some(n), _)) => Ok(n),
            Some(_) => Err(invalid_member(key)),
        }
    }

    /// An optional `i32` field: `null` gives `None`, and so does an absent member; an
    /// array must have the element.
    pub open spec fn optional_i32(self, i: int, key: Seq<char>, shape: Seq<char>) -> Result<Option<i32>, Seq<char>> {
        match self.field(i, key) {
            None => if self is Array { Err(self.absent(key, shape)) } else { Ok(None) },
            Some(Json::Null) => Ok(None),
            Some(Json::Number(_, Some(n), _)) => if i32::MIN <= n <= i32::MAX {
                Ok(Some(n as i32))
            } else {
                Err(invalid_member(key))
            },
            Some(_) => Err(invalid_member(key)),
        }
    }
}

impl JsonValue {
    /// A field of a record; see [`Json::field`].
    pub fn field(&self, i: usize, key: &str) -> (r: Option<&JsonValue>)
        ensures
            r is Some == self@.field(i as int, key@) is Some,
            r matches Some(m) ==> m@ == self@.field(i as int, key@)->0,
    {
        match self {
            JsonValue::Object(_) => self.get(key),
            JsonValue::Array(items) => {
                proof {
                    lemma_view_items(items@);
                }
                if i < items.len() { Some(&items[i]) } else { None }
            },
            _ => None,
        }
    }

    /// Why a field with no default is absent; see [`Json::absent`].
    pub fn absent(&self, key: &str, shape: &str) -> (m: String)
        ensures
            m@ == self@.absent(key@, shape@),
    {
        match self {
            JsonValue::Array(items) => {
                proof {
                    lemma_view_items(items@);
                }
                length_error_text(items.len(), shape)
            },
            _ => missing_member_text(key),
        }
    }

    /// Whether a record given as an array has more than `n` elements.
    pub fn longer_than(&self, n: usize) -> (b: bool)
        ensures
            b == self@.longer_than(n as nat),
    {
        match self {
            JsonValue::Array(items) => {
                proof {
                    lemma_view_items(items@);
                }
                items.len() > n
            },
            _ => false,
        }
    }

    /// A string field with a default: absent gives the empty string.
    pub fn string_or_default(&self, i: usize, key: &str) -> (r: Result<String, String>)
        ensures
            match (r, self@.string_or_default(i as int, key@)) {
                (Ok(a), Ok(b)) => a@ == b,
                (Err(a), Err(b)) => a@ == b,
                _ => false,
            },
    {
        match self.field(i, key) {
            None => Ok(String::new()),
            Some(JsonValue::String(s)) => Ok(s.clone()),
            Some(_) => Err(invalid_member_text(key)),
        }
    }

    /// A required string field.
    pub fn required_string(&self, i: usize, key: &str, shape: &str) -> (r: Result<String, String>)
        ensures
            match (r, self@.required_string(i as int, key@, shape@)) {
                (Ok(a), Ok(b)) => a@ == b,
                (Err(a), Err(b)) => a@ == b,
                _ => false,
            },
    {
        match self.field(i, key) {
            None => Err(self.absent(key, shape)),
            Some(JsonValue::String(s)) => Ok(s.clone()),
            Some(_) => Err(invalid_member_text(key)),
        }
    }

    /// An optional string field; see [`Json::optional_string`].
    pub fn optional_string(&self, i: usize, key: &str, shape: &str) -> (r: Result<Option<String>, String>)
        ensures
            match (r, self@.optional_string(i as int, key@, shape@)) {
                (Ok(None), Ok(None)) => true,
                (Ok(Some(a)), Ok(Some(b))) => a@ == b,
                (Err(a), Err(b)) => a@ == b,
                _ => false,
            },
    {
        match self.field(i, key) {
            None => if self.is_array() { Err(self.absent(key, shape)) } else { Ok(None) },
            Some(JsonValue::Null) => Ok(None),
            Some(JsonValue::String(s)) => Ok(Some(s.clone())),
            Some(_) => Err(invalid_member_text(key)),
        }
    }

    /// A boolean field with a default: absent gives `false`.
    pub fn bool_or_default(&self, i: usize, key: &str) -> (r: Result<bool, String>)
        ensures
            match (r, self@.bool_or_default(i as int, key@)) {
                (Ok(a), Ok(b)) => a == b,
                (Err(a), Err(b)) => a@ == b,
                _ => false,
            },
    {
        match self.field(i, key) {
            None => Ok(false),
            Some(JsonValue::Bool(b)) => Ok(*b),
            Some(_) => Err(invalid_member_text(key)),
        }
    }

    /// A required boolean field.
    pub fn required_bool(&self, i: usize, key: &str, shape: &str) -> (r: Result<bool, String>)
        ensures
            match (r, self@.required_bool(i as int, key@, shape@)) {
                (Ok(a), Ok(b)) => a == b,
                (Err(a), Err(b)) => a@ == b,
                _ => false,
            },
    {
        match self.field(i, key) {
            None => Err(self.absent(key, shape)),
            Some(JsonValue::Bool(b)) => Ok(*b),
            Some(_) => Err(invalid_member_text(key)),
        }
    }

    /// A signed integer field with a default: absent gives 0.
    pub fn i64_or_default(&self, i: usize, key: &str) -> (r: Result<i64, String>)
        ensures
            match (r, self@.i64_or_default(i as int, key@)) {
                (Ok(a), Ok(b)) => a == b,
                (Err(a), Err(b)) => a@ == b,
                _ => false,
            },
    {
        match self.field(i, key) {
            None => Ok(0),
            Some(JsonValue::Number(n)) => match n.signed {
                Some(v) => Ok(v),
                None => Err(invalid_member_text(key)),
            },
            Some(_) => Err(invalid_member_text(key)),
        }
    }

    /// An optional `i32` field; see [`Json::optional_i32`].
    pub fn optional_i32(&self, i: usize, key: &str, shape: &str) -> (r: Result<Option<i32>, String>)
        ensures
            match (r, self@.optional_i32(i as int, key@, shape@)) {
                (Ok(a), Ok(b)) => a == b,
                (Err(a), Err(b)) => a@ == b,
                _ => false,
            },
    {
        match self.field(i, key) {
            None => if self.is_array() { Err(self.absent(key, shape)) } else { Ok(None) },
            Some(JsonValue::Null) => Ok(None),
            Some(JsonValue::Number(n)) => match n.signed {
                Some(v) => if -2147483648 <= v && v <= 2147483647 {
                    Ok(Some(v as i32))
                } else {
                    Err(invalid_member_text(key))
                },
                None => Err(invalid_member_text(key)),
            },
            Some(_) => Err(invalid_member_text(key)),
        }
    }

    /// Whether the value is an object.
    pub fn is_object(&self) -> (b: bool)
        ensures
            b == (self@ is Object),
    {
        match self {
            JsonValue::Object(_) => true,
            _ => false,
        }
    }
}

// ---------------------------------------------------------------------------
// JSON text.

/// A hexadecimal digit in lower case.
pub open spec fn hex_lower(n: nat) -> char {
    if n < 10 { digit_char(n) } else { (87 + n) as char }
}

/// How a character stands inside a JSON string: quotation mark and reverse solidus
/// escaped with a reverse solidus; backspace, tab, line feed, form feed and carriage
/// return by their short escapes; other controls below U+0020 as `\u00` and two lower
/// case hexadecimal digits; every other character as itself.
pub open spec fn json_escape(c: char) -> Seq<char> {
    let n = c as u32;
    if c == '"' {
        seq!['\\', '"']
    } else if c == '\\' {
        seq!['\\', '\\']
    } else if n == 0x08 {
        seq!['\\', 'b']
    } else if n == 0x09 {
        seq!['\\', 't']
    } else if n == 0x0A {
        seq!['\\', 'n']
    } else if n == 0x0C {
        seq!['\\', 'f']
    } else if n == 0x0D {
        seq!['\\', 'r']
    } else if n < 0x20 {
        seq!['\\', 'u', '0', '0', hex_lower((n / 16) as nat), hex_lower((n % 16) as nat)]
    } else {
        seq![c]
    }
}

/// The characters of a string, each as it stands inside a JSON string.
pub open spec fn json_escaped(s: Seq<char>) -> Seq<char>
    decreases s.len(),
{
    if s.len() == 0 { Seq::empty() } else { json_escaped(s.drop_last()) + json_escape(s.last()) }
}

/// A string as JSON text: quoted, with its characters escaped.
pub open spec fn json_string_text(s: Seq<char>) -> Seq<char> {
    seq!['"'] + json_escaped(s) + seq!['"']
}

/// A JSON value as compact text: no white space, members and elements in order and
/// separated by commas, numbers as printed, strings quoted and escaped.
pub open spec fn json_text(v: Json) -> Seq<char>
    decreases v,
{
    match v {
        Json::Null => "null"@,
        Json::Bool(b) => if b { "true"@ } else { "false"@ },
        Json::Number(text, _, _) => text,
        Json::Str(s) => json_string_text(s),
        Json::Array(items) => "["@ + items_text(items) + "]"@,
        Json::Object(members) => "{"@ + members_text(members) + "}"@,
    }
}

/// The elements of an array as JSON text, separated by commas.
pub open spec fn items_text(items: Seq<Json>) -> Seq<char>
    decreases items,
{
    if items.len() == 0 {
        Seq::empty()
    } else if items.len() == 1 {
        json_text(items[0])
    } else {
        items_text(items.drop_last()) + ","@ + json_text(items[items.len() - 1])
    }
}

/// The members of an object as JSON text, each a quoted name, a colon and the value,
/// separated by commas.
pub open spec fn members_text(members: Seq<(Seq<char>, Json)>) -> Seq<char>
    decreases members,
{
    if members.len() == 0 {
        Seq::empty()
    } else if members.len() == 1 {
        json_string_text(members[0].0) + ":"@ + json_text(members[0].1)
    } else {
        members_text(members.drop_last()) + ","@ + json_string_text(members[members.len() - 1].0) + ":"@
            + json_text(members[members.len() - 1].1)
    }
}

/// `serde_json::Value::String(s).to_string()`: the string as JSON text, quoted and
/// escaped; see [`json_escape`].
#[verifier::external_body]
fn quote_json(s: &str) -> (r: String)
    ensures
        r@ == json_string_text(s@),
{
    serde_json::Value::String(s.to_owned()).to_string()
}

/// Appends the elements of an array as JSON text; see [`items_text`].
fn write_items(items: &Vec<JsonValue>, out: &mut String)
    ensures
        final(out)@ == old(out)@ + items_text(view_items(items@)),
    decreases items,
{
    proof {
        lemma_view_items(items@);
    }
    let ghost v = view_items(items@);
    let ghost start = out@;
    let mut i: usize = 0;
    assert(v.subrange(0, 0) =~= Seq::<Json>::empty());
    while i < items.len()
        invariant
            i <= items.len(),
            v == view_items(items@),
            v.len() == items.len(),
            forall|j: int| 0 <= j < items.len() ==> #[trigger] v[j] == view_json(items@[j]),
            out@ == start + items_text(v.subrange(0, i as int)),
        decreases items.len() - i,
    {
        if i > 0 {
            out.append(",");
        }
        assert(decreases_to!(items => items@));
        assert(decreases_to!(items@ => items@[i as int]));
        items[i].write_text(out);
        proof {
            let next = v.subrange(0, i + 1);
            assert(next.drop_last() =~= v.subrange(0, i as int));
            assert(next[i as int] == v[i as int]);
        }
        i += 1;
    }
    assert(v.subrange(0, items.len() as int) =~= v);
}

/// Appends the members of an object as JSON text; see [`members_text`].
fn write_members(members: &Vec<(String, JsonValue)>, out: &mut String)
    ensures
        final(out)@ == old(out)@ + members_text(view_entries(members@)),
    decreases members,
{
    proof {
        lemma_view_entries(members@);
    }
    let ghost v = view_entries(members@);
    let ghost start = out@;
    let mut i: usize = 0;
    assert(v.subrange(0, 0) =~= Seq::<(Seq<char>, Json)>::empty());
    while i < members.len()
        invariant
            i <= members.len(),
            v == view_entries(members@),
            v.len() == members.len(),
            forall|j: int| 0 <= j < members.len() ==> #[trigger] v[j] == (members@[j].0@, view_json(members@[j].1)),
            out@ == start + members_text(v.subrange(0, i as int)),
        decreases members.len() - i,
    {
        if i > 0 {
            out.append(",");
        }
        let q = quote_json(members[i].0.as_str());
        out.append(q.as_str());
        out.append(":");
        assert(decreases_to!(members => members@));
        assert(decreases_to!(members@ => members@[i as int]));
        assert(decreases_to!(members@[i as int] => members@[i as int].1));
        members[i].1.write_text(out);
        proof {
            let next = v.subrange(0, i + 1);
            assert(next.drop_last() =~= v.subrange(0, i as int));
            assert(next[i as int] == v[i as int]);
        }
        i += 1;
    }
    assert(v.subrange(0, members.len() as int) =~= v);
}

impl JsonValue {
    /// Appends the value as compact JSON text; see [`json_text`].
    fn write_text(&self, out: &mut String)
        ensures
            final(out)@ == old(out)@ + json_text(self@),
        decreases self,
    {
        match self {
            JsonValue::Null => out.append("null"),
            JsonValue::Bool(b) => if *b { out.append("true") } else { out.append("false") },
            JsonValue::Number(n) => out.append(n.text.as_str()),
            JsonValue::String(s) => {
                let q = quote_json(s.as_str());
                out.append(q.as_str());
            },
            JsonValue::Array(items) => {
                let ghost start = out@;
                out.append("[");
                write_items(items, out);
                out.append("]");
                assert(out@ =~= start + json_text(self@));
            },
            JsonValue::Object(members) => {
                let ghost start = out@;
                out.append("{");
                write_members(members, out);
                out.append("}");
                assert(out@ =~= start + json_text(self@));
            },
        }
    }

    /// The value as compact JSON text; see [`json_text`].
    pub fn to_text(&self) -> (s: String)
        ensures
            s@ == json_text(self@),
    {
        let mut s = String::new();
        self.write_text(&mut s);
        s
    }
}

} // verus!
