//! JSON text as the library reads it: `serde_json` parses it, and the library holds the
//! result as a plain tree of its own, numbers kept as `serde_json` writes them.
use crate::text::{parse_unsigned, parse_unsigned_chars, str_chars, strings_view};
use vstd::prelude::*;

verus! {

#[verifier::external_type_specification]
#[verifier::external_body]
pub struct ExSerdeJsonValue(serde_json::Value);

/// A JSON value. An object keeps its members in the order `serde_json` gives them (each
/// key once); a number is its text as `serde_json` writes it.
#[derive(Debug)]
pub enum JsonValue {
    Null,
    Bool(bool),
    Number(String),
    Str(String),
    Array(Vec<JsonValue>),
    Object(Vec<(String, JsonValue)>),
}

/// What `serde_json::from_str::<serde_json::Value>` gives for `text`: the value, as a
/// [`JsonValue`], or the error's message when the text is not one JSON value.
pub uninterp spec fn json_parse_result(text: Seq<char>) -> Result<JsonValue, Seq<char>>;

/// What `serde_json` writes for a value (`Value::to_string`, compact).
pub uninterp spec fn json_text(v: JsonValue) -> Seq<char>;

/// `serde_json::Value` to a [`JsonValue`], member for member.
#[verifier::external_body]
fn from_serde(v: &serde_json::Value) -> JsonValue {
    match v {
        serde_json::Value::Null => JsonValue::Null,
        serde_json::Value::Bool(b) => JsonValue::Bool(*b),
        serde_json::Value::Number(n) => JsonValue::Number(n.to_string()),
        serde_json::Value::String(s) => JsonValue::Str(s.clone()),
        serde_json::Value::Array(a) => JsonValue::Array(a.iter().map(from_serde).collect()),
        serde_json::Value::Object(o) => JsonValue::Object(o.iter().map(|(k, x)| (k.clone(), from_serde(x))).collect()),
    }
}

/// A [`JsonValue`] back to a `serde_json::Value`, member for member.
#[verifier::external_body]
fn to_serde(v: &JsonValue) -> serde_json::Value {
    match v {
        JsonValue::Null => serde_json::Value::Null,
        JsonValue::Bool(b) => serde_json::Value::Bool(*b),
        JsonValue::Number(t) => t.parse::<serde_json::Number>().map(serde_json::Value::Number).unwrap_or(serde_json::Value::Null),
        JsonValue::Str(s) => serde_json::Value::String(s.clone()),
        JsonValue::Array(a) => serde_json::Value::Array(a.iter().map(to_serde).collect()),
        JsonValue::Object(o) => serde_json::Value::Object(o.iter().map(|(k, x)| (k.clone(), to_serde(x))).collect()),
    }
}

/// `serde_json::from_str::<serde_json::Value>(text)`, converted; an error as its message
/// (`Display`). The contract claims only that the result is the named one.
#[verifier::external_body]
pub(crate) fn parse_json(text: &str) -> (r: Result<JsonValue, String>)
    ensures
        match r {
            Ok(v) => json_parse_result(text@) == Ok::<JsonValue, Seq<char>>(v),
            Err(m) => json_parse_result(text@) == Err::<JsonValue, Seq<char>>(m@),
        },
{
    match serde_json::from_str::<serde_json::Value>(text) {
        Ok(v) => Ok(from_serde(&v)),
        Err(e) => Err(e.to_string()),
    }
}

/// `serde_json::Value::to_string` of the value. The contract claims only that the result
/// is the named one.
#[verifier::external_body]
pub(crate) fn json_to_text(v: &JsonValue) -> (r: String)
    ensures
        r@ == json_text(*v),
{
    to_serde(v).to_string()
}

// ---------------------------------------------------------------------------------------
// Reading fields
// ---------------------------------------------------------------------------------------

/// The index of the first member named `key`, or -1.
pub open spec fn member_index(fs: Seq<(String, JsonValue)>, key: Seq<char>) -> int
    decreases fs.len(),
{
    if fs.len() == 0 {
        -1
    } else {
        let r = member_index(fs.drop_last(), key);
        if r >= 0 {
            r
        } else if fs.last().0@ == key {
            fs.len() - 1
        } else {
            -1
        }
    }
}

proof fn lemma_member_index(fs: Seq<(String, JsonValue)>, key: Seq<char>)
    ensures
        -1 <= member_index(fs, key) < fs.len(),
        member_index(fs, key) >= 0 ==> fs[member_index(fs, key)].0@ == key,
    decreases fs.len(),
{
    if fs.len() > 0 {
        lemma_member_index(fs.drop_last(), key);
    }
}

/// `value.get(key)`: the member named `key` of an object.
pub open spec fn get(v: JsonValue, key: Seq<char>) -> Option<JsonValue> {
    match v {
        JsonValue::Object(fs) => if member_index(fs@, key) >= 0 {
            Some(fs@[member_index(fs@, key)].1)
        } else {
            None
        },
        _ => None,
    }
}

/// `as_str`.
pub open spec fn str_of(o: Option<JsonValue>) -> Option<Seq<char>> {
    match o {
        Some(JsonValue::Str(s)) => Some(s@),
        _ => None,
    }
}

/// `as_u64`: a number that is a whole number from 0 to `u64::MAX`.
pub open spec fn u64_of(o: Option<JsonValue>) -> Option<u64> {
    match o {
        Some(JsonValue::Number(t)) => match parse_unsigned(t@, u64::MAX as nat) {
            Some(n) => Some(n as u64),
            None => None,
        },
        _ => None,
    }
}

/// `as_bool`.
pub open spec fn bool_of(o: Option<JsonValue>) -> Option<bool> {
    match o {
        Some(JsonValue::Bool(b)) => Some(b),
        _ => None,
    }
}

/// A string field, empty when missing or not a string.
pub open spec fn str_field(v: JsonValue, key: Seq<char>) -> Seq<char> {
    match str_of(get(v, key)) {
        Some(s) => s,
        None => Seq::empty(),
    }
}

/// A whole-number field, 0 when missing or not one.
pub open spec fn u64_field(v: JsonValue, key: Seq<char>) -> u64 {
    match u64_of(get(v, key)) {
        Some(n) => n,
        None => 0,
    }
}

/// An array element as text: a string as it is, anything else as JSON.
pub open spec fn elem_text(x: JsonValue) -> Seq<char> {
    match x {
        JsonValue::Str(s) => s@,
        _ => json_text(x),
    }
}

/// An array field's elements as text; empty when missing or not an array.
pub open spec fn str_list(v: JsonValue, key: Seq<char>) -> Seq<Seq<char>> {
    match get(v, key) {
        Some(JsonValue::Array(items)) => items@.map_values(|x: JsonValue| elem_text(x)),
        _ => Seq::empty(),
    }
}

pub fn get_exec<'a>(v: &'a JsonValue, key: &str) -> (r: Option<&'a JsonValue>)
    ensures
        match r {
            Some(x) => get(*v, key@) == Some(*x),
            None => get(*v, key@) is None,
        },
{
    match v {
        JsonValue::Object(fs) => {
            let mut i: usize = 0;
            while i < fs.len()
                invariant
                    i <= fs@.len(),
                    *v == JsonValue::Object(*fs),
                    member_index(fs@.take(i as int), key@) == -1,
                decreases fs@.len() - i,
            {
                assert(fs@.take(i + 1).drop_last() =~= fs@.take(i as int));
                if crate::text::str_eq(fs[i].0.as_str(), key) {
                    proof {
                        assert(fs@.take(i + 1).last() == fs@[i as int]);
                        assert(member_index(fs@.take(i + 1), key@) == i);
                        lemma_member_prefix(fs@, key@, i + 1);
                        assert(*v == JsonValue::Object(*fs));
                        assert(get(*v, key@) == Some(fs@[i as int].1));
                    }
                    let x = &fs[i].1;
                    assert(*x == fs@[i as int].1);
                    return Some(x);
                }
                i += 1;
            }
            assert(fs@.take(fs@.len() as int) =~= fs@);
            None
        },
        _ => None,
    }
}

proof fn lemma_member_prefix(fs: Seq<(String, JsonValue)>, key: Seq<char>, k: int)
    requires
        0 <= k <= fs.len(),
        member_index(fs.take(k), key) >= 0,
    ensures
        member_index(fs, key) == member_index(fs.take(k), key),
    decreases fs.len() - k,
{
    if k < fs.len() {
        assert(fs.take(k + 1).drop_last() =~= fs.take(k));
        lemma_member_prefix(fs, key, k + 1);
    } else {
        assert(fs.take(k) =~= fs);
    }
}

pub fn str_field_exec(v: &JsonValue, key: &str) -> (r: String)
    ensures
        r@ == str_field(*v, key@),
{
    match get_exec(v, key) {
        Some(JsonValue::Str(s)) => s.clone(),
        _ => String::new(),
    }
}

pub fn opt_str_field_exec(v: &JsonValue, key: &str) -> (r: Option<String>)
    ensures
        crate::matching::opt_view(r) == str_of(get(*v, key@)),
{
    match get_exec(v, key) {
        Some(JsonValue::Str(s)) => Some(s.clone()),
        _ => None,
    }
}

pub fn u64_of_exec(o: Option<&JsonValue>) -> (r: Option<u64>)
    ensures
        r == u64_of(match o {
            Some(x) => Some(*x),
            None => None,
        }),
{
    match o {
        Some(JsonValue::Number(t)) => {
            let c = str_chars(t.as_str());
            parse_unsigned_chars(c.as_slice(), u64::MAX)
        },
        _ => None,
    }
}

pub fn u64_field_exec(v: &JsonValue, key: &str) -> (r: u64)
    ensures
        r == u64_field(*v, key@),
{
    match u64_of_exec(get_exec(v, key)) {
        Some(n) => n,
        None => 0,
    }
}

pub fn bool_field_exec(v: &JsonValue, key: &str) -> (r: Option<bool>)
    ensures
        r == bool_of(get(*v, key@)),
{
    match get_exec(v, key) {
        Some(JsonValue::Bool(b)) => Some(*b),
        _ => None,
    }
}

pub fn elem_text_exec(x: &JsonValue) -> (r: String)
    ensures
        r@ == elem_text(*x),
{
    match x {
        JsonValue::Str(s) => s.clone(),
        _ => json_to_text(x),
    }
}

pub fn str_list_exec(v: &JsonValue, key: &str) -> (r: Vec<String>)
    ensures
        strings_view(r@) == str_list(*v, key@),
{
    let mut out: Vec<String> = Vec::new();
    match get_exec(v, key) {
        Some(JsonValue::Array(items)) => {
            let mut i: usize = 0;
            while i < items.len()
                invariant
                    i <= items@.len(),
                    strings_view(out@) == items@.take(i as int).map_values(|x: JsonValue| elem_text(x)),
                decreases items@.len() - i,
            {
                let t = elem_text_exec(&items[i]);
                let ghost before = strings_view(out@);
                out.push(t);
                proof {
                    assert(strings_view(out@) =~= before.push(t@));
                    assert(items@.take(i + 1).map_values(|x: JsonValue| elem_text(x)) =~= items@.take(i as int).map_values(
                        |x: JsonValue| elem_text(x),
                    ).push(elem_text(items@[i as int])));
                }
                i += 1;
            }
            assert(items@.take(items@.len() as int) =~= items@);
        },
        _ => {
            assert(strings_view(out@) =~= Seq::<Seq<char>>::empty());
        },
    }
    out
}

} // verus!
