//! Typed values: what a call takes and gives, tagged by the variant of its type.

use vstd::prelude::*;
use crate::json::{Number, NumberModel};
use crate::types::{names_model, Kind};

verus! {

/// A floating-point value as it travels through the bridge.
///
/// A finite value is the JSON number it was given as or is to be written as,
/// kept in the precision in which it arrived: the bridge does no
/// floating-point arithmetic, so a value passes through it unchanged. Rounding
/// to the width of the component's type is left to the execution engine's
/// adapter. The three values that JSON numbers cannot express are cases of
/// their own.
#[derive(Clone, Copy, Debug, PartialEq, Eq, Structural)]
pub enum FloatValue {
    Finite(Number),
    NaN,
    Infinity,
    NegInfinity,
}

/// The mathematical value of a [`FloatValue`].
pub enum FloatModel {
    Finite(NumberModel),
    NaN,
    Infinity,
    NegInfinity,
}

impl View for FloatValue {
    type V = FloatModel;

    open spec fn view(&self) -> FloatModel {
        match *self {
            FloatValue::Finite(n) => FloatModel::Finite(n@),
            FloatValue::NaN => FloatModel::NaN,
            FloatValue::Infinity => FloatModel::Infinity,
            FloatValue::NegInfinity => FloatModel::NegInfinity,
        }
    }
}

/// A value of an interface type.
#[derive(Debug, PartialEq, Eq)]
pub enum Value {
    Bool(bool),
    U8(u8),
    U16(u16),
    U32(u32),
    U64(u64),
    S8(i8),
    S16(i16),
    S32(i32),
    S64(i64),
    Float32(FloatValue),
    Float64(FloatValue),
    Char(char),
    String(String),
    List(Vec<Value>),
    /// The fields with their names, in the order of the record's declaration.
    Record(Vec<(String, Value)>),
    Tuple(Vec<Value>),
    /// The name of the case, and its payload where the case has one.
    Variant(String, Option<Box<Value>>),
    /// The name of the case.
    Enum(String),
    Option(Option<Box<Value>>),
    Result(Result<Option<Box<Value>>, Option<Box<Value>>>),
    /// The names of the bits that are set.
    Flags(Vec<String>),
    /// The number by which the execution engine knows the resource.
    Resource(u32),
}

/// The mathematical value of a [`Value`].
pub enum ValueModel {
    Bool(bool),
    U8(u8),
    U16(u16),
    U32(u32),
    U64(u64),
    S8(i8),
    S16(i16),
    S32(i32),
    S64(i64),
    Float32(FloatModel),
    Float64(FloatModel),
    Char(char),
    String(Seq<char>),
    List(Seq<ValueModel>),
    Record(Seq<(Seq<char>, ValueModel)>),
    Tuple(Seq<ValueModel>),
    Variant(Seq<char>, Option<Box<ValueModel>>),
    Enum(Seq<char>),
    Option(Option<Box<ValueModel>>),
    Result(Result<Option<Box<ValueModel>>, Option<Box<ValueModel>>>),
    Flags(Seq<Seq<char>>),
    Resource(u32),
}

impl Value {
    /// The mathematical value, part by part.
    pub open spec fn model(self) -> ValueModel
        decreases self,
    {
        match self {
            Value::Bool(b) => ValueModel::Bool(b),
            Value::U8(n) => ValueModel::U8(n),
            Value::U16(n) => ValueModel::U16(n),
            Value::U32(n) => ValueModel::U32(n),
            Value::U64(n) => ValueModel::U64(n),
            Value::S8(n) => ValueModel::S8(n),
            Value::S16(n) => ValueModel::S16(n),
            Value::S32(n) => ValueModel::S32(n),
            Value::S64(n) => ValueModel::S64(n),
            Value::Float32(f) => ValueModel::Float32(f@),
            Value::Float64(f) => ValueModel::Float64(f@),
            Value::Char(c) => ValueModel::Char(c),
            Value::String(s) => ValueModel::String(s@),
            Value::List(items) => ValueModel::List(
                Seq::new(
                    items.len() as nat,
                    |i: int|
                        if 0 <= i < items.len() {
                            items[i].model()
                        } else {
                            arbitrary()
                        },
                ),
            ),
            Value::Record(fields) => ValueModel::Record(
                Seq::new(
                    fields.len() as nat,
                    |i: int|
                        if 0 <= i < fields.len() {
                            (fields[i].0@, fields[i].1.model())
                        } else {
                            arbitrary()
                        },
                ),
            ),
            Value::Tuple(items) => ValueModel::Tuple(
                Seq::new(
                    items.len() as nat,
                    |i: int|
                        if 0 <= i < items.len() {
                            items[i].model()
                        } else {
                            arbitrary()
                        },
                ),
            ),
            Value::Variant(name, payload) => ValueModel::Variant(
                name@,
                match payload {
                    Some(p) => Some(Box::new((*p).model())),
                    None => None,
                },
            ),
            Value::Enum(name) => ValueModel::Enum(name@),
            Value::Option(inner) => ValueModel::Option(
                match inner {
                    Some(p) => Some(Box::new((*p).model())),
                    None => None,
                },
            ),
            Value::Result(outcome) => ValueModel::Result(
                match outcome {
                    Ok(payload) => Ok(
                        match payload {
                            Some(p) => Some(Box::new((*p).model())),
                            None => None,
                        },
                    ),
                    Err(payload) => Err(
                        match payload {
                            Some(p) => Some(Box::new((*p).model())),
                            None => None,
                        },
                    ),
                },
            ),
            Value::Flags(names) => ValueModel::Flags(names_model(names@)),
            Value::Resource(handle) => ValueModel::Resource(handle),
        }
    }
}

impl View for Value {
    type V = ValueModel;

    open spec fn view(&self) -> ValueModel {
        self.model()
    }
}

/// The values of a list of typed values.
pub open spec fn values_model(items: Seq<Value>) -> Seq<ValueModel> {
    Seq::new(items.len(), |i: int| items[i]@)
}

/// The names and values of a list of fields.
pub open spec fn fields_model(fields: Seq<(String, Value)>) -> Seq<(Seq<char>, ValueModel)> {
    Seq::new(fields.len(), |i: int| (fields[i].0@, fields[i].1@))
}

/// The model of a list is the model of its items.
pub proof fn lemma_list_model(items: Vec<Value>)
    ensures
        Value::List(items)@ == ValueModel::List(values_model(items@)),
        Value::Tuple(items)@ == ValueModel::Tuple(values_model(items@)),
{
    assert(Value::List(items)@->List_0 =~= values_model(items@));
    assert(Value::Tuple(items)@->Tuple_0 =~= values_model(items@));
}

/// The model of a record is the model of its fields.
pub proof fn lemma_record_model(fields: Vec<(String, Value)>)
    ensures
        Value::Record(fields)@ == ValueModel::Record(fields_model(fields@)),
{
    assert(Value::Record(fields)@->Record_0 =~= fields_model(fields@));
}

/// One step on the way from a JSON value to a part of it.
#[derive(Clone, Debug, PartialEq, Eq)]
pub enum Segment {
    /// Into the member of an object that has this name.
    Key(String),
    /// Into the item of an array at this position, counted from zero.
    Index(usize),
}

/// The mathematical value of a [`Segment`].
pub enum SegmentModel {
    Key(Seq<char>),
    Index(nat),
}

impl View for Segment {
    type V = SegmentModel;

    open spec fn view(&self) -> SegmentModel {
        match self {
            Segment::Key(name) => SegmentModel::Key(name@),
            Segment::Index(i) => SegmentModel::Index(*i as nat),
        }
    }
}

/// A JSON value does not have the shape that a type asks for.
#[derive(Clone, Debug, PartialEq, Eq)]
pub struct TypeMismatch {
    /// Where the offending part lies, from the outermost value inwards.
    pub path: Vec<Segment>,
    /// The variant of the type that the part was held against.
    pub expected: Kind,
}

/// The mathematical value of a [`TypeMismatch`].
pub struct MismatchModel {
    pub path: Seq<SegmentModel>,
    pub expected: Kind,
}

/// The steps of a path.
pub open spec fn path_model(path: Seq<Segment>) -> Seq<SegmentModel> {
    Seq::new(path.len(), |i: int| path[i]@)
}

impl View for TypeMismatch {
    type V = MismatchModel;

    open spec fn view(&self) -> MismatchModel {
        MismatchModel { path: path_model(self.path@), expected: self.expected }
    }
}

impl MismatchModel {
    /// The mismatch of a value that has no part of the expected kind at all.
    pub open spec fn here(expected: Kind) -> MismatchModel {
        MismatchModel { path: Seq::empty(), expected }
    }

    /// The same mismatch, seen from the value that holds the part under `step`.
    pub open spec fn under(self, step: SegmentModel) -> MismatchModel {
        MismatchModel { path: seq![step] + self.path, expected: self.expected }
    }
}

impl TypeMismatch {
    /// The mismatch of a value that has no part of the expected kind at all.
    pub fn here(expected: Kind) -> (r: TypeMismatch)
        ensures
            r@ == MismatchModel::here(expected),
    {
        let r = TypeMismatch { path: Vec::new(), expected };
        assert(r@.path =~= Seq::empty());
        r
    }

    /// The same mismatch, seen from the value that holds the part under `step`.
    pub fn under(self, step: Segment) -> (r: TypeMismatch)
        ensures
            r@ == self@.under(step@),
    {
        let TypeMismatch { path, expected } = self;
        let mut path = path;
        let ghost before = path@;
        path.insert(0, step);
        let r = TypeMismatch { path, expected };
        assert(r@.path =~= seq![step@] + path_model(before));
        r
    }
}

} // verus!

verus! {

/// A copy of a list of typed values.
pub fn clone_values(items: &Vec<Value>) -> (out: Vec<Value>)
    ensures
        values_model(out@) == values_model(items@),
    decreases items,
{
    let mut out: Vec<Value> = Vec::new();
    let mut i: usize = 0;
    while i < items.len()
        invariant
            i <= items.len(),
            out.len() == i,
            forall|k: int| 0 <= k < i ==> (#[trigger] out[k])@ == items[k]@,
        decreases items.len() - i,
    {
        let item = items[i].clone();
        out.push(item);
        i += 1;
    }
    assert(values_model(out@) =~= values_model(items@));
    out
}

/// A copy of a list of named values.
fn clone_fields(fields: &Vec<(String, Value)>) -> (out: Vec<(String, Value)>)
    ensures
        fields_model(out@) == fields_model(fields@),
    decreases fields,
{
    let mut out: Vec<(String, Value)> = Vec::new();
    let mut i: usize = 0;
    while i < fields.len()
        invariant
            i <= fields.len(),
            out.len() == i,
            forall|k: int|
                0 <= k < i ==> (#[trigger] out[k]).0@ == fields[k].0@ && out[k].1@ == fields[k].1@,
        decreases fields.len() - i,
    {
        let value = fields[i].1.clone();
        out.push((fields[i].0.clone(), value));
        i += 1;
    }
    assert(fields_model(out@) =~= fields_model(fields@));
    out
}

/// A copy of a payload that may be absent.
fn clone_payload(payload: &Option<Box<Value>>) -> (out: Option<Box<Value>>)
    ensures
        out is Some == payload is Some,
        out is Some ==> (*out->Some_0)@ == (*payload->Some_0)@,
    decreases payload,
{
    match payload {
        Some(p) => Some(Box::new((&**p).clone())),
        None => None,
    }
}

/// A copy of a list of names.
fn clone_flag_names(names: &Vec<String>) -> (out: Vec<String>)
    ensures
        names_model(out@) == names_model(names@),
{
    let mut out: Vec<String> = Vec::new();
    let mut i: usize = 0;
    while i < names.len()
        invariant
            i <= names.len(),
            out.len() == i,
            forall|k: int| 0 <= k < i ==> (#[trigger] out[k])@ == names[k]@,
        decreases names.len() - i,
    {
        out.push(names[i].clone());
        i += 1;
    }
    assert(names_model(out@) =~= names_model(names@));
    out
}

impl Clone for Value {
    /// A copy that denotes the same typed value.
    fn clone(&self) -> (r: Self)
        ensures
            r@ == self@,
        decreases self,
    {
        match self {
            Value::Bool(b) => Value::Bool(*b),
            Value::U8(n) => Value::U8(*n),
            Value::U16(n) => Value::U16(*n),
            Value::U32(n) => Value::U32(*n),
            Value::U64(n) => Value::U64(*n),
            Value::S8(n) => Value::S8(*n),
            Value::S16(n) => Value::S16(*n),
            Value::S32(n) => Value::S32(*n),
            Value::S64(n) => Value::S64(*n),
            Value::Float32(f) => Value::Float32(*f),
            Value::Float64(f) => Value::Float64(*f),
            Value::Char(c) => Value::Char(*c),
            Value::String(s) => Value::String(s.clone()),
            Value::List(items) => {
                let out = clone_values(items);
                proof {
                    lemma_list_model(out);
                    lemma_list_model(*items);
                }
                Value::List(out)
            },
            Value::Record(fields) => {
                let out = clone_fields(fields);
                proof {
                    lemma_record_model(out);
                    lemma_record_model(*fields);
                }
                Value::Record(out)
            },
            Value::Tuple(items) => {
                let out = clone_values(items);
                proof {
                    lemma_list_model(out);
                    lemma_list_model(*items);
                }
                Value::Tuple(out)
            },
            Value::Variant(name, payload) => Value::Variant(name.clone(), clone_payload(payload)),
            Value::Enum(name) => Value::Enum(name.clone()),
            Value::Option(inner) => Value::Option(clone_payload(inner)),
            Value::Result(outcome) => match outcome {
                Ok(payload) => Value::Result(Ok(clone_payload(payload))),
                Err(payload) => Value::Result(Err(clone_payload(payload))),
            },
            Value::Flags(names) => Value::Flags(clone_flag_names(names)),
            Value::Resource(handle) => Value::Resource(*handle),
        }
    }
}

} // verus!
