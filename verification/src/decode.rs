//! Writing a typed value as JSON.

use vstd::prelude::*;
use crate::codec::{decode, decode_float};
use crate::json::{
    items_model, lemma_array_model, lemma_object_model, members_model, JsonModel, JsonValue, Number,
};
use crate::text::string_of_char;
use crate::value::{FloatValue, Value};

verus! {

/// The JSON value that a floating-point value is written as.
pub fn float_to_json(f: FloatValue) -> (j: JsonValue)
    ensures
        j@ == decode_float(f@),
{
    match f {
        FloatValue::Finite(n) => JsonValue::Number(n),
        FloatValue::NaN => JsonValue::String(String::from_str("NaN")),
        FloatValue::Infinity => JsonValue::String(String::from_str("Infinity")),
        FloatValue::NegInfinity => JsonValue::String(String::from_str("-Infinity")),
    }
}

/// The object whose only member is `value` under the name `key`.
pub fn single_object(key: String, value: JsonValue) -> (j: JsonValue)
    ensures
        j@ == JsonModel::Object(seq![(key@, value@)]),
{
    let ghost expected = seq![(key@, value@)];
    let mut members: Vec<(String, JsonValue)> = Vec::new();
    members.push((key, value));
    proof {
        lemma_object_model(members);
        assert(members_model(members@) =~= expected);
    }
    JsonValue::Object(members)
}

/// The names of set bits, each as a JSON string.
fn names_to_json(names: &Vec<String>) -> (out: Vec<JsonValue>)
    ensures
        out.len() == names.len(),
        forall|i: int| 0 <= i < names.len() ==> (#[trigger] out[i])@ == JsonModel::String(names[i]@),
{
    let mut out: Vec<JsonValue> = Vec::new();
    let mut i: usize = 0;
    while i < names.len()
        invariant
            i <= names.len(),
            out.len() == i,
            forall|k: int| 0 <= k < i ==> (#[trigger] out[k])@ == JsonModel::String(names[k]@),
        decreases names.len() - i,
    {
        out.push(JsonValue::String(names[i].clone()));
        i += 1;
    }
    out
}

/// The JSON values of a list of typed values, one for one.
fn items_to_json(items: &Vec<Value>) -> (out: Vec<JsonValue>)
    ensures
        out.len() == items.len(),
        forall|i: int| 0 <= i < items.len() ==> (#[trigger] out[i])@ == decode(items[i]@),
    decreases items,
{
    let mut out: Vec<JsonValue> = Vec::new();
    let mut i: usize = 0;
    while i < items.len()
        invariant
            i <= items.len(),
            out.len() == i,
            forall|k: int| 0 <= k < i ==> (#[trigger] out[k])@ == decode(items[k]@),
        decreases items.len() - i,
    {
        let j = items[i].to_json();
        out.push(j);
        i += 1;
    }
    out
}

/// The members that the fields of a record are written as, one for one.
fn fields_to_json(fields: &Vec<(String, Value)>) -> (out: Vec<(String, JsonValue)>)
    ensures
        out.len() == fields.len(),
        forall|i: int|
            0 <= i < fields.len() ==> {
                &&& (#[trigger] out[i]).0@ == fields[i].0@
                &&& out[i].1@ == decode(fields[i].1@)
            },
    decreases fields,
{
    let mut out: Vec<(String, JsonValue)> = Vec::new();
    let mut i: usize = 0;
    while i < fields.len()
        invariant
            i <= fields.len(),
            out.len() == i,
            forall|k: int|
                0 <= k < i ==> {
                    &&& (#[trigger] out[k]).0@ == fields[k].0@
                    &&& out[k].1@ == decode(fields[k].1@)
                },
        decreases fields.len() - i,
    {
        let j = fields[i].1.to_json();
        out.push((fields[i].0.clone(), j));
        i += 1;
    }
    out
}

/// The JSON value of a payload that may be absent.
fn payload_to_json(payload: &Option<Box<Value>>) -> (j: JsonValue)
    ensures
        j@ == (match *payload {
            Some(p) => decode((*p)@),
            None => JsonModel::Null,
        }),
    decreases payload,
{
    match payload {
        Some(p) => p.to_json(),
        None => JsonValue::Null,
    }
}

impl Value {
    /// Writes the value as JSON. This never fails: every typed value has a
    /// JSON form, and [`Value::from_json`] reads that form back as the same
    /// value.
    pub fn to_json(&self) -> (j: JsonValue)
        ensures
            j@ == decode(self@),
        decreases self,
    {
        match self {
            Value::Bool(b) => JsonValue::Bool(*b),
            Value::U8(n) => JsonValue::Number(Number::from_u64(*n as u64)),
            Value::U16(n) => JsonValue::Number(Number::from_u64(*n as u64)),
            Value::U32(n) => JsonValue::Number(Number::from_u64(*n as u64)),
            Value::U64(n) => JsonValue::Number(Number::from_u64(*n)),
            Value::S8(n) => JsonValue::Number(Number::from_i64(*n as i64)),
            Value::S16(n) => JsonValue::Number(Number::from_i64(*n as i64)),
            Value::S32(n) => JsonValue::Number(Number::from_i64(*n as i64)),
            Value::S64(n) => JsonValue::Number(Number::from_i64(*n)),
            Value::Float32(f) => float_to_json(*f),
            Value::Float64(f) => float_to_json(*f),
            Value::Char(c) => JsonValue::String(string_of_char(*c)),
            Value::String(s) => JsonValue::String(s.clone()),
            Value::List(items) => {
                let out = items_to_json(items);
                proof {
                    lemma_array_model(out);
                    assert(items_model(out@) =~= decode(self@)->Array_0);
                }
                JsonValue::Array(out)
            },
            Value::Record(fields) => {
                let out = fields_to_json(fields);
                proof {
                    lemma_object_model(out);
                    assert(members_model(out@) =~= decode(self@)->Object_0);
                }
                JsonValue::Object(out)
            },
            Value::Tuple(items) => {
                let out = items_to_json(items);
                proof {
                    lemma_array_model(out);
                    assert(items_model(out@) =~= decode(self@)->Array_0);
                }
                JsonValue::Array(out)
            },
            Value::Variant(name, payload) => {
                let inner = payload_to_json(payload);
                single_object(name.clone(), inner)
            },
            Value::Enum(name) => JsonValue::String(name.clone()),
            Value::Option(inner) => match inner {
                Some(p) => {
                    let j = p.to_json();
                    single_object(String::from_str("some"), j)
                },
                None => JsonValue::Null,
            },
            Value::Result(outcome) => match outcome {
                Ok(payload) => {
                    let inner = payload_to_json(payload);
                    single_object(String::from_str("ok"), inner)
                },
                Err(payload) => {
                    let inner = payload_to_json(payload);
                    single_object(String::from_str("err"), inner)
                },
            },
            Value::Flags(names) => {
                let out = names_to_json(names);
                proof {
                    lemma_array_model(out);
                    assert(items_model(out@) =~= decode(self@)->Array_0);
                }
                JsonValue::Array(out)
            },
            Value::Resource(handle) => JsonValue::Number(Number::from_u64(*handle as u64)),
        }
    }
}

} // verus!
