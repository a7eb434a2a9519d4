//! JSON objects the command line prints, and their text.

use crate::strings;
use vstd::prelude::*;

verus! {

/// One value of a JSON object.
#[derive(Debug, PartialEq, Eq)]
pub enum JsonValue {
    Null,
    Bool(bool),
    Number(u64),
    Text(String),
}

/// What a `JsonValue` says, with texts as their characters.
pub enum Json {
    Null,
    Bool(bool),
    Number(nat),
    Text(Seq<char>),
}

impl View for JsonValue {
    type V = Json;

    open spec fn view(&self) -> Json {
        match self {
            JsonValue::Null => Json::Null,
            JsonValue::Bool(b) => Json::Bool(*b),
            JsonValue::Number(n) => Json::Number(*n as nat),
            JsonValue::Text(s) => Json::Text(s@),
        }
    }
}

/// A JSON object: its keys and values. Its view are those, with texts as
/// their characters.
#[derive(Debug, PartialEq, Eq)]
pub struct JsonObject {
    pub fields: Vec<(String, JsonValue)>,
}

/// The keys and values of a list of fields.
pub open spec fn field_texts(fields: Seq<(String, JsonValue)>) -> Seq<(Seq<char>, Json)> {
    fields.map_values(|f: (String, JsonValue)| (f.0@, f.1@))
}

impl View for JsonObject {
    type V = Seq<(Seq<char>, Json)>;

    open spec fn view(&self) -> Seq<(Seq<char>, Json)> {
        field_texts(self.fields@)
    }
}

/// The value of a key, if the object has it.
pub open spec fn value_of(fields: Seq<(Seq<char>, Json)>, key: Seq<char>) -> Option<Json>
    decreases fields.len(),
{
    if fields.len() == 0 {
        None
    } else if fields[0].0 == key {
        Some(fields[0].1)
    } else {
        value_of(fields.drop_first(), key)
    }
}

impl JsonObject {
    pub fn new() -> (r: Self)
        ensures
            r@ == Seq::<(Seq<char>, Json)>::empty(),
    {
        let r = JsonObject { fields: Vec::new() };
        assert(r@ =~= Seq::empty());
        r
    }

    /// Adds a field at the end.
    pub fn put(&mut self, key: &str, value: JsonValue)
        ensures
            final(self)@ == old(self)@.push((key@, value@)),
    {
        let ghost before = self.fields@;
        self.fields.push((key.to_owned(), value));
        assert(self@ =~= field_texts(before).push((key@, value@)));
    }

    /// The value of a key.
    pub fn get(&self, key: &str) -> (r: Option<&JsonValue>)
        ensures
            (match r {
                Some(v) => Some(v@),
                None => None,
            }) == value_of(self@, key@),
    {
        let ghost all = self@;
        let mut i: usize = 0;
        assert(all.skip(0) == all);
        while i < self.fields.len()
            invariant
                all == self@,
                i <= self.fields@.len(),
                value_of(all, key@) == value_of(all.skip(i as int), key@),
            decreases self.fields@.len() - i,
        {
            assert(all.skip(i as int).drop_first() == all.skip(i + 1));
            if *self.fields[i].0.as_str() == *key {
                return Some(&self.fields[i].1);
            }
            i += 1;
        }
        None
    }
}

// --- text --------------------------------------------------------------------

/// The error `serde_json` gives.
#[verifier::external_type_specification]
#[verifier::external_body]
pub struct ExJsonError(serde_json::Error);

/// The text of a JSON object of these fields on one line, or `None` where there
/// is none, as `serde_json::to_string` gives it.
pub uninterp spec fn compact_json(fields: Seq<(Seq<char>, Json)>) -> Option<Seq<char>>;

/// The characters of a result's text.
pub open spec fn result_text(r: Result<String, serde_json::Error>) -> Option<Seq<char>> {
    match r {
        Ok(text) => Some(text@),
        Err(_) => None,
    }
}

/// Calls `serde_json::to_string` on the object of these fields. What comes back
/// depends on the fields alone; how an object is written is not stated, but a
/// line break never stands in the text: the compact form has none of its own,
/// and those inside strings are escaped.
#[verifier::external_body]
pub(crate) fn compact_text(object: &JsonObject) -> (r: Result<String, serde_json::Error>)
    ensures
        result_text(r) == compact_json(object@),
        r matches Ok(text) ==> !text@.contains('\n'),
{
    let map: serde_json::Map<String, serde_json::Value> = object.fields.iter().map(
        |(key, value)| {
            let value = match value {
                JsonValue::Null => serde_json::Value::Null,
                JsonValue::Bool(b) => serde_json::Value::Bool(*b),
                JsonValue::Number(n) => serde_json::Value::from(*n),
                JsonValue::Text(s) => serde_json::Value::String(s.clone()),
            };
            (key.clone(), value)
        },
    ).collect();
    serde_json::to_string(&map)
}

/// The text of a JSON array of these objects, indented, or `None` where there
/// is none, as `serde_json::to_string_pretty` gives it.
pub uninterp spec fn pretty_json(rows: Seq<Seq<(Seq<char>, Json)>>) -> Option<Seq<char>>;

/// What the objects of a list say.
pub open spec fn object_texts(objects: Seq<JsonObject>) -> Seq<Seq<(Seq<char>, Json)>> {
    objects.map_values(|o: JsonObject| o@)
}

/// Calls `serde_json::to_string_pretty` on the array of these objects. What
/// comes back depends on the objects alone; how they are written is not stated.
#[verifier::external_body]
pub(crate) fn pretty_text(objects: &Vec<JsonObject>) -> (r: Result<String, serde_json::Error>)
    ensures
        result_text(r) == pretty_json(object_texts(objects@)),
{
    let rows: Vec<serde_json::Map<String, serde_json::Value>> = objects.iter().map(|object|
        object.fields.iter().map(|(key, value)| {
            let value = match value {
                JsonValue::Null => serde_json::Value::Null,
                JsonValue::Bool(b) => serde_json::Value::Bool(*b),
                JsonValue::Number(n) => serde_json::Value::from(*n),
                JsonValue::Text(s) => serde_json::Value::String(s.clone()),
            };
            (key.clone(), value)
        }).collect()).collect();
    serde_json::to_string_pretty(&rows)
}

/// A result's text, or `fallback` where there is none.
pub fn text_or(r: Result<String, serde_json::Error>, fallback: &str) -> (text: String)
    ensures
        text@ == match result_text(r) {
            Some(t) => t,
            None => fallback@,
        },
{
    match r {
        Ok(text) => text,
        Err(_) => fallback.to_owned(),
    }
}

} // verus!
