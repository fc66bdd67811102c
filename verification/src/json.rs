//! JSON values, as much of them as the Ollama model listing reads.

use vstd::prelude::*;
use crate::session::{Line, LineView, lines_view};
use serde_json::Value;

verus! {

/// serde_json's own value type, which a parse yields before it is copied
/// into a [`Json`].
#[verifier::external_type_specification]
#[verifier::external_body]
pub struct ExJsonValue(Value);

/// A JSON value. A number is kept as its value as an unsigned 64-bit
/// integer, where it has one.
#[derive(Debug, PartialEq, Eq)]
pub enum Json {
    Null,
    Bool(bool),
    Number(Option<u64>),
    Str(String),
    Array(Vec<Json>),
    Object(Vec<(String, Json)>),
}

/// The value that serde_json reads from `text`, copied into a [`Json`]
/// (numbers by their unsigned 64-bit value, objects with their keys in the
/// order serde_json's map walks them); `None` where `text` is not JSON.
pub uninterp spec fn json_of_text(text: Seq<char>) -> Option<Json>;

/// Parses `text` with `serde_json::from_str` into a `serde_json::Value` and
/// copies that into a [`Json`]. The contract claims only that the result is
/// the same for the same text: what serde_json accepts and yields is not
/// restated here.
#[verifier::external_body]
pub(crate) fn parse_json(text: &str) -> (r: Option<Json>)
    ensures
        r == json_of_text(text@),
{
    match serde_json::from_str::<Value>(text) {
        Ok(v) => Some(json_from_value(&v)),
        Err(_) => None,
    }
}

/// Copies a `serde_json::Value` into a [`Json`], one arm per variant; a
/// number keeps `Number::as_u64`. It serves the body of [`parse_json`],
/// whose contract covers what it returns.
#[verifier::external_body]
fn json_from_value(v: &Value) -> Json {
    match v {
        Value::Null => Json::Null,
        Value::Bool(b) => Json::Bool(*b),
        Value::Number(n) => Json::Number(n.as_u64()),
        Value::String(s) => Json::Str(s.clone()),
        Value::Array(a) => Json::Array(a.iter().map(json_from_value).collect()),
        Value::Object(m) => Json::Object(m.iter().map(|(k, x)| (k.clone(), json_from_value(x))).collect()),
    }
}

/// The value under `key` among `entries`: the first entry with that key.
pub open spec fn entry_value(entries: Seq<(String, Json)>, key: Seq<char>) -> Option<Json>
    decreases entries.len(),
{
    if entries.len() == 0 {
        None
    } else if entries[0].0@ == key {
        Some(entries[0].1)
    } else {
        entry_value(entries.drop_first(), key)
    }
}

/// The value under `key` of an object; `None` (JSON `null`) where `j` is not
/// an object or has no such key, as indexing a `serde_json::Value` with a string.
pub open spec fn field(j: Json, key: Seq<char>) -> Option<Json> {
    match j {
        Json::Object(entries) => entry_value(entries@, key),
        _ => None,
    }
}

/// The name of a model entry: its `"name"` where that is a string, else `"?"`.
pub open spec fn model_name(m: Json) -> Seq<char> {
    match field(m, "name"@) {
        Some(Json::Str(s)) => s@,
        _ => "?"@,
    }
}

/// The size of a model entry: its `"size"` where that is an unsigned integer, else 0.
pub open spec fn model_size(m: Json) -> u64 {
    match field(m, "size"@) {
        Some(Json::Number(Some(n))) => n,
        _ => 0,
    }
}

/// The models of an Ollama `/api/tags` reply: one line for each entry of its
/// `"models"` array, none where there is no such array.
pub open spec fn model_lines(v: Json) -> Seq<LineView> {
    match field(v, "models"@) {
        Some(Json::Array(items)) => items@.map_values(
            |m: Json| LineView::ModelSize(model_name(m), model_size(m)),
        ),
        _ => Seq::empty(),
    }
}

/// The value under `key` of an object.
pub fn get_field<'a>(j: &'a Json, key: &str) -> (r: Option<&'a Json>)
    ensures
        match r {
            Some(v) => field(*j, key@) == Some(*v),
            None => field(*j, key@) is None,
        },
{
    match j {
        Json::Object(entries) => {
            let n = entries.len();
            let mut i: usize = 0;
            assert(entries@.subrange(0, n as int) =~= entries@);
            while i < n
                invariant
                    n == entries@.len(),
                    *j == Json::Object(*entries),
                    i <= n,
                    entry_value(entries@, key@) == entry_value(
                        entries@.subrange(i as int, n as int),
                        key@,
                    ),
                decreases n - i,
            {
                let ghost rest = entries@.subrange(i as int, n as int);
                assert(rest.drop_first() =~= entries@.subrange(i + 1, n as int));
                assert(rest[0] == entries@[i as int]);
                if crate::text::str_eq(entries[i].0.as_str(), key) {
                    assert(entry_value(rest, key@) == Some(entries@[i as int].1));
                    return Some(&entries[i].1);
                }
                i += 1;
            }
            assert(entries@.subrange(n as int, n as int).len() == 0);
            None
        },
        _ => None,
    }
}

/// The line for one model entry.
fn model_line(m: &Json) -> (r: Line)
    ensures
        r@ == LineView::ModelSize(model_name(*m), model_size(*m)),
{
    let name = match get_field(m, "name") {
        Some(Json::Str(s)) => String::from_str(s.as_str()),
        _ => String::from_str("?"),
    };
    let bytes = match get_field(m, "size") {
        Some(Json::Number(Some(n))) => *n,
        _ => 0,
    };
    Line::ModelSize { name, bytes }
}

/// The lines listing the models of an Ollama `/api/tags` reply.
pub fn ollama_model_lines(v: &Json) -> (r: Vec<Line>)
    ensures
        lines_view(r@) == model_lines(*v),
{
    let mut out: Vec<Line> = Vec::new();
    match get_field(v, "models") {
        Some(Json::Array(items)) => {
            let n = items.len();
            let mut i: usize = 0;
            while i < n
                invariant
                    n == items@.len(),
                    i <= n,
                    lines_view(out@) =~= items@.subrange(0, i as int).map_values(
                        |m: Json| LineView::ModelSize(model_name(m), model_size(m)),
                    ),
                decreases n - i,
            {
                let line = model_line(&items[i]);
                let ghost before = lines_view(out@);
                out.push(line);
                assert(lines_view(out@) =~= before.push(line@));
                assert(items@.subrange(0, i + 1) =~= items@.subrange(0, i as int).push(items@[i as int]));
                i += 1;
            }
            assert(items@.subrange(0, n as int) =~= items@);
            out
        },
        _ => out,
    }
}

/// The lines for what `curl` printed of Ollama's `/api/tags`: the models of
/// the JSON it holds, none where it is not JSON.
pub open spec fn ollama_text_lines(out: Seq<char>) -> Seq<LineView> {
    match json_of_text(out) {
        Some(v) => model_lines(v),
        None => Seq::empty(),
    }
}

/// The lines listing the models named in `curl`'s output of Ollama's
/// `/api/tags`.
pub fn ollama_reply_lines(out: &str) -> (r: Vec<Line>)
    ensures
        lines_view(r@) == ollama_text_lines(out@),
{
    match parse_json(out) {
        Some(v) => ollama_model_lines(&v),
        None => Vec::new(),
    }
}

} // verus!
