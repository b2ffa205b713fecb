//! The value codec: what JSON value a typed value is written as, and what
//! typed value a JSON value is read as under a given type.
//!
//! The JSON value is never trusted to describe itself: the type says what
//! shape is expected. The shapes are these.
//!
//! | type | JSON |
//! |---|---|
//! | `bool` | `true`, `false` |
//! | integers, resource handles | an integer within the type's range |
//! | floats | a number, or one of the strings `"NaN"`, `"Infinity"`, `"-Infinity"` |
//! | `char` | a string of exactly one character |
//! | `string` | a string |
//! | list | an array |
//! | tuple | an array of the tuple's length |
//! | record | an object with a member for every field; other members are ignored |
//! | variant | an object with one member, named by the case; `null` where the case has no payload |
//! | enum | the name of the case, as a string |
//! | option | `null`, or an object with the one member `"some"` |
//! | result | an object with the one member `"ok"` or `"err"`; `null` where the payload is absent |
//! | flags | an array of the names of the bits that are set |

use vstd::prelude::*;
use crate::json::{lookup, JsonModel, NumberModel};
use crate::types::{Kind, TypeModel};
use crate::value::{FloatModel, MismatchModel, SegmentModel, ValueModel};

verus! {

/// The member name that marks a present option.
pub open spec fn some_key() -> Seq<char> {
    "some"@
}

/// The member name that marks success.
pub open spec fn ok_key() -> Seq<char> {
    "ok"@
}

/// The member name that marks failure.
pub open spec fn err_key() -> Seq<char> {
    "err"@
}

/// How "not a number" is written.
pub open spec fn nan_text() -> Seq<char> {
    "NaN"@
}

/// How positive infinity is written.
pub open spec fn infinity_text() -> Seq<char> {
    "Infinity"@
}

/// How negative infinity is written.
pub open spec fn neg_infinity_text() -> Seq<char> {
    "-Infinity"@
}

/// The JSON value that a floating-point value is written as.
pub open spec fn decode_float(f: FloatModel) -> JsonModel {
    match f {
        FloatModel::Finite(n) => JsonModel::Number(n),
        FloatModel::NaN => JsonModel::String(nan_text()),
        FloatModel::Infinity => JsonModel::String(infinity_text()),
        FloatModel::NegInfinity => JsonModel::String(neg_infinity_text()),
    }
}

/// The JSON value that an optional payload is written as.
pub open spec fn decode_absent() -> JsonModel {
    JsonModel::Null
}

/// The JSON value that a typed value is written as.
pub open spec fn decode(v: ValueModel) -> JsonModel
    decreases v,
{
    match v {
        ValueModel::Bool(b) => JsonModel::Bool(b),
        ValueModel::U8(n) => JsonModel::Number(NumberModel::Int(n as int)),
        ValueModel::U16(n) => JsonModel::Number(NumberModel::Int(n as int)),
        ValueModel::U32(n) => JsonModel::Number(NumberModel::Int(n as int)),
        ValueModel::U64(n) => JsonModel::Number(NumberModel::Int(n as int)),
        ValueModel::S8(n) => JsonModel::Number(NumberModel::Int(n as int)),
        ValueModel::S16(n) => JsonModel::Number(NumberModel::Int(n as int)),
        ValueModel::S32(n) => JsonModel::Number(NumberModel::Int(n as int)),
        ValueModel::S64(n) => JsonModel::Number(NumberModel::Int(n as int)),
        ValueModel::Float32(f) => decode_float(f),
        ValueModel::Float64(f) => decode_float(f),
        ValueModel::Char(c) => JsonModel::String(seq![c]),
        ValueModel::String(s) => JsonModel::String(s),
        ValueModel::List(items) => JsonModel::Array(
            Seq::new(
                items.len(),
                |i: int|
                    if 0 <= i < items.len() {
                        decode(items[i])
                    } else {
                        arbitrary()
                    },
            ),
        ),
        ValueModel::Record(fields) => JsonModel::Object(
            Seq::new(
                fields.len(),
                |i: int|
                    if 0 <= i < fields.len() {
                        (fields[i].0, decode(fields[i].1))
                    } else {
                        arbitrary()
                    },
            ),
        ),
        ValueModel::Tuple(items) => JsonModel::Array(
            Seq::new(
                items.len(),
                |i: int|
                    if 0 <= i < items.len() {
                        decode(items[i])
                    } else {
                        arbitrary()
                    },
            ),
        ),
        ValueModel::Variant(name, payload) => JsonModel::Object(
            seq![
                (
                    name,
                    match payload {
                        Some(p) => decode(*p),
                        None => decode_absent(),
                    },
                ),
            ],
        ),
        ValueModel::Enum(name) => JsonModel::String(name),
        ValueModel::Option(inner) => match inner {
            Some(p) => JsonModel::Object(seq![(some_key(), decode(*p))]),
            None => JsonModel::Null,
        },
        ValueModel::Result(outcome) => match outcome {
            Ok(payload) => JsonModel::Object(
                seq![
                    (
                        ok_key(),
                        match payload {
                            Some(p) => decode(*p),
                            None => decode_absent(),
                        },
                    ),
                ],
            ),
            Err(payload) => JsonModel::Object(
                seq![
                    (
                        err_key(),
                        match payload {
                            Some(p) => decode(*p),
                            None => decode_absent(),
                        },
                    ),
                ],
            ),
        },
        ValueModel::Flags(names) => JsonModel::Array(
            Seq::new(names.len(), |i: int| JsonModel::String(names[i])),
        ),
        ValueModel::Resource(handle) => JsonModel::Number(NumberModel::Int(handle as int)),
    }
}

/// The integer that a JSON value is, if it is one.
pub open spec fn as_int(j: JsonModel) -> Option<int> {
    match j {
        JsonModel::Number(NumberModel::Int(n)) => Some(n),
        _ => None,
    }
}

/// The integer that a JSON value is, if it is one between `low` and `high`.
pub open spec fn encode_int(j: JsonModel, expected: Kind, low: int, high: int) -> Result<
    int,
    MismatchModel,
> {
    match as_int(j) {
        Some(n) => if low <= n <= high {
            Ok(n)
        } else {
            Err(MismatchModel::here(expected))
        },
        None => Err(MismatchModel::here(expected)),
    }
}

/// The floating-point value that a JSON value is read as.
pub open spec fn encode_float(j: JsonModel, expected: Kind) -> Result<FloatModel, MismatchModel> {
    match j {
        JsonModel::Number(n) => Ok(FloatModel::Finite(n)),
        JsonModel::String(s) => if s == nan_text() {
            Ok(FloatModel::NaN)
        } else if s == infinity_text() {
            Ok(FloatModel::Infinity)
        } else if s == neg_infinity_text() {
            Ok(FloatModel::NegInfinity)
        } else {
            Err(MismatchModel::here(expected))
        },
        _ => Err(MismatchModel::here(expected)),
    }
}

/// The only member of an object that has exactly one.
pub open spec fn single_member(j: JsonModel) -> Option<(Seq<char>, JsonModel)> {
    match j {
        JsonModel::Object(members) => if members.len() == 1 {
            Some(members[0])
        } else {
            None
        },
        _ => None,
    }
}

/// The position of the first case named `name` at or after `from`.
pub open spec fn find_case(
    cases: Seq<(Seq<char>, Option<TypeModel>)>,
    name: Seq<char>,
    from: int,
) -> Option<int>
    decreases cases.len() - from,
{
    if from < 0 || from >= cases.len() {
        None
    } else if cases[from].0 == name {
        Some(from)
    } else {
        find_case(cases, name, from + 1)
    }
}

/// A payload that was read, as the payload of the member `key`.
pub open spec fn present(r: Result<ValueModel, MismatchModel>, key: Seq<char>) -> Result<
    Option<Box<ValueModel>>,
    MismatchModel,
> {
    match r {
        Ok(v) => Ok(Some(Box::new(v))),
        Err(m) => Err(m.under(SegmentModel::Key(key))),
    }
}

/// What stands in the member `key` where the type has no payload: `null`.
pub open spec fn absent(x: JsonModel, key: Seq<char>, owner: Kind) -> Result<
    Option<Box<ValueModel>>,
    MismatchModel,
> {
    if x is Null {
        Ok(None)
    } else {
        Err(MismatchModel::here(owner).under(SegmentModel::Key(key)))
    }
}

/// The names of the bits that the items at or after `from` set.
pub open spec fn encode_flags(items: Seq<JsonModel>, names: Seq<Seq<char>>, from: int) -> Result<
    Seq<Seq<char>>,
    MismatchModel,
>
    decreases items.len() - from,
{
    if from < 0 || from >= items.len() {
        Ok(Seq::empty())
    } else {
        match items[from] {
            JsonModel::String(s) => if names.contains(s) {
                match encode_flags(items, names, from + 1) {
                    Ok(rest) => Ok(seq![s] + rest),
                    Err(m) => Err(m),
                }
            } else {
                Err(MismatchModel::here(Kind::Flags).under(SegmentModel::Index(from as nat)))
            },
            _ => Err(MismatchModel::here(Kind::Flags).under(SegmentModel::Index(from as nat))),
        }
    }
}

/// The typed value that a JSON value is read as under a type, or the first
/// mismatch, in the order of the type's parts.
pub open spec fn encode(j: JsonModel, t: TypeModel) -> Result<ValueModel, MismatchModel>
    decreases t, 0int,
{
    match t {
        TypeModel::Bool => match j {
            JsonModel::Bool(b) => Ok(ValueModel::Bool(b)),
            _ => Err(MismatchModel::here(Kind::Bool)),
        },
        TypeModel::U8 => match encode_int(j, Kind::U8, 0, u8::MAX as int) {
            Ok(n) => Ok(ValueModel::U8(n as u8)),
            Err(m) => Err(m),
        },
        TypeModel::U16 => match encode_int(j, Kind::U16, 0, u16::MAX as int) {
            Ok(n) => Ok(ValueModel::U16(n as u16)),
            Err(m) => Err(m),
        },
        TypeModel::U32 => match encode_int(j, Kind::U32, 0, u32::MAX as int) {
            Ok(n) => Ok(ValueModel::U32(n as u32)),
            Err(m) => Err(m),
        },
        TypeModel::U64 => match encode_int(j, Kind::U64, 0, u64::MAX as int) {
            Ok(n) => Ok(ValueModel::U64(n as u64)),
            Err(m) => Err(m),
        },
        TypeModel::S8 => match encode_int(j, Kind::S8, i8::MIN as int, i8::MAX as int) {
            Ok(n) => Ok(ValueModel::S8(n as i8)),
            Err(m) => Err(m),
        },
        TypeModel::S16 => match encode_int(j, Kind::S16, i16::MIN as int, i16::MAX as int) {
            Ok(n) => Ok(ValueModel::S16(n as i16)),
            Err(m) => Err(m),
        },
        TypeModel::S32 => match encode_int(j, Kind::S32, i32::MIN as int, i32::MAX as int) {
            Ok(n) => Ok(ValueModel::S32(n as i32)),
            Err(m) => Err(m),
        },
        TypeModel::S64 => match encode_int(j, Kind::S64, i64::MIN as int, i64::MAX as int) {
            Ok(n) => Ok(ValueModel::S64(n as i64)),
            Err(m) => Err(m),
        },
        TypeModel::Float32 => match encode_float(j, Kind::Float32) {
            Ok(f) => Ok(ValueModel::Float32(f)),
            Err(m) => Err(m),
        },
        TypeModel::Float64 => match encode_float(j, Kind::Float64) {
            Ok(f) => Ok(ValueModel::Float64(f)),
            Err(m) => Err(m),
        },
        TypeModel::Char => match j {
            JsonModel::String(s) => if s.len() == 1 {
                Ok(ValueModel::Char(s[0]))
            } else {
                Err(MismatchModel::here(Kind::Char))
            },
            _ => Err(MismatchModel::here(Kind::Char)),
        },
        TypeModel::String => match j {
            JsonModel::String(s) => Ok(ValueModel::String(s)),
            _ => Err(MismatchModel::here(Kind::String)),
        },
        TypeModel::List(item) => match j {
            JsonModel::Array(items) => match encode_items(items, *item, 0) {
                Ok(values) => Ok(ValueModel::List(values)),
                Err(m) => Err(m),
            },
            _ => Err(MismatchModel::here(Kind::List)),
        },
        TypeModel::Record(fields) => match j {
            JsonModel::Object(members) => match encode_fields(members, fields, 0) {
                Ok(values) => Ok(ValueModel::Record(values)),
                Err(m) => Err(m),
            },
            _ => Err(MismatchModel::here(Kind::Record)),
        },
        TypeModel::Tuple(types) => match j {
            JsonModel::Array(items) => if items.len() == types.len() {
                match encode_tuple(items, types, 0) {
                    Ok(values) => Ok(ValueModel::Tuple(values)),
                    Err(m) => Err(m),
                }
            } else {
                Err(MismatchModel::here(Kind::Tuple))
            },
            _ => Err(MismatchModel::here(Kind::Tuple)),
        },
        TypeModel::Variant(cases) => match single_member(j) {
            Some((name, x)) => match find_case(cases, name, 0) {
                Some(i) => if 0 <= i < cases.len() {
                    let payload = match cases[i].1 {
                        Some(p) => present(encode(x, p), name),
                        None => absent(x, name, Kind::Variant),
                    };
                    match payload {
                        Ok(p) => Ok(ValueModel::Variant(name, p)),
                        Err(m) => Err(m),
                    }
                } else {
                    Err(MismatchModel::here(Kind::Variant))
                },
                None => Err(MismatchModel::here(Kind::Variant)),
            },
            None => Err(MismatchModel::here(Kind::Variant)),
        },
        TypeModel::Enum(names) => match j {
            JsonModel::String(s) => if names.contains(s) {
                Ok(ValueModel::Enum(s))
            } else {
                Err(MismatchModel::here(Kind::Enum))
            },
            _ => Err(MismatchModel::here(Kind::Enum)),
        },
        TypeModel::Option(item) => if j is Null {
            Ok(ValueModel::Option(None))
        } else {
            match single_member(j) {
                Some((name, x)) => if name == some_key() {
                    match present(encode(x, *item), name) {
                        Ok(p) => Ok(ValueModel::Option(p)),
                        Err(m) => Err(m),
                    }
                } else {
                    Err(MismatchModel::here(Kind::Option))
                },
                None => Err(MismatchModel::here(Kind::Option)),
            }
        },
        TypeModel::Result(ok, err) => match single_member(j) {
            Some((name, x)) => if name == ok_key() {
                let payload = match ok {
                    Some(p) => present(encode(x, *p), name),
                    None => absent(x, name, Kind::Result),
                };
                match payload {
                    Ok(p) => Ok(ValueModel::Result(Ok(p))),
                    Err(m) => Err(m),
                }
            } else if name == err_key() {
                let payload = match err {
                    Some(p) => present(encode(x, *p), name),
                    None => absent(x, name, Kind::Result),
                };
                match payload {
                    Ok(p) => Ok(ValueModel::Result(Err(p))),
                    Err(m) => Err(m),
                }
            } else {
                Err(MismatchModel::here(Kind::Result))
            },
            None => Err(MismatchModel::here(Kind::Result)),
        },
        TypeModel::Flags(names) => match j {
            JsonModel::Array(items) => match encode_flags(items, names, 0) {
                Ok(set) => Ok(ValueModel::Flags(set)),
                Err(m) => Err(m),
            },
            _ => Err(MismatchModel::here(Kind::Flags)),
        },
        TypeModel::Resource(_) => match encode_int(j, Kind::Resource, 0, u32::MAX as int) {
            Ok(n) => Ok(ValueModel::Resource(n as u32)),
            Err(m) => Err(m),
        },
    }
}

/// The typed values that the items at or after `from` are read as, all under
/// one type.
pub open spec fn encode_items(items: Seq<JsonModel>, t: TypeModel, from: int) -> Result<
    Seq<ValueModel>,
    MismatchModel,
>
    decreases t, items.len() - from,
{
    if from < 0 || from >= items.len() {
        Ok(Seq::empty())
    } else {
        match encode(items[from], t) {
            Err(m) => Err(m.under(SegmentModel::Index(from as nat))),
            Ok(v) => match encode_items(items, t, from + 1) {
                Ok(rest) => Ok(seq![v] + rest),
                Err(m) => Err(m),
            },
        }
    }
}

/// The typed values that the items at or after `from` are read as, each under
/// the type at its own position.
pub open spec fn encode_tuple(items: Seq<JsonModel>, types: Seq<TypeModel>, from: int) -> Result<
    Seq<ValueModel>,
    MismatchModel,
>
    decreases types, types.len() - from,
{
    if from < 0 || from >= types.len() {
        Ok(Seq::empty())
    } else {
        match encode(items[from], types[from]) {
            Err(m) => Err(m.under(SegmentModel::Index(from as nat))),
            Ok(v) => match encode_tuple(items, types, from + 1) {
                Ok(rest) => Ok(seq![v] + rest),
                Err(m) => Err(m),
            },
        }
    }
}

/// The typed values of the fields at or after `from`, each read from the
/// member that has the field's name.
pub open spec fn encode_fields(
    members: Seq<(Seq<char>, JsonModel)>,
    fields: Seq<(Seq<char>, TypeModel)>,
    from: int,
) -> Result<Seq<(Seq<char>, ValueModel)>, MismatchModel>
    decreases fields, fields.len() - from,
{
    if from < 0 || from >= fields.len() {
        Ok(Seq::empty())
    } else {
        let name = fields[from].0;
        match lookup(members, name) {
            None => Err(MismatchModel::here(fields[from].1.kind()).under(SegmentModel::Key(name))),
            Some(x) => match encode(x, fields[from].1) {
                Err(m) => Err(m.under(SegmentModel::Key(name))),
                Ok(v) => match encode_fields(members, fields, from + 1) {
                    Ok(rest) => Ok(seq![(name, v)] + rest),
                    Err(m) => Err(m),
                },
            },
        }
    }
}

/// A typed value is one of the type: it has the type's variant, and so have
/// its parts, each under the type of its own place.
pub open spec fn valid(v: ValueModel, t: TypeModel) -> bool
    decreases t,
{
    match t {
        TypeModel::Bool => v is Bool,
        TypeModel::U8 => v is U8,
        TypeModel::U16 => v is U16,
        TypeModel::U32 => v is U32,
        TypeModel::U64 => v is U64,
        TypeModel::S8 => v is S8,
        TypeModel::S16 => v is S16,
        TypeModel::S32 => v is S32,
        TypeModel::S64 => v is S64,
        TypeModel::Float32 => v is Float32,
        TypeModel::Float64 => v is Float64,
        TypeModel::Char => v is Char,
        TypeModel::String => v is String,
        TypeModel::List(item) => match v {
            ValueModel::List(items) => forall|i: int|
                0 <= i < items.len() ==> valid(#[trigger] items[i], *item),
            _ => false,
        },
        TypeModel::Record(fields) => match v {
            ValueModel::Record(values) => {
                &&& values.len() == fields.len()
                &&& forall|i: int|
                    0 <= i < fields.len() ==> {
                        &&& (#[trigger] values[i]).0 == fields[i].0
                        &&& valid(values[i].1, fields[i].1)
                    }
            },
            _ => false,
        },
        TypeModel::Tuple(types) => match v {
            ValueModel::Tuple(items) => {
                &&& items.len() == types.len()
                &&& forall|i: int| 0 <= i < types.len() ==> valid(#[trigger] items[i], types[i])
            },
            _ => false,
        },
        TypeModel::Variant(cases) => match v {
            ValueModel::Variant(name, payload) => match find_case(cases, name, 0) {
                Some(i) => 0 <= i < cases.len() && match cases[i].1 {
                    Some(p) => payload is Some && valid(*payload->Some_0, p),
                    None => payload is None,
                },
                None => false,
            },
            _ => false,
        },
        TypeModel::Enum(names) => match v {
            ValueModel::Enum(name) => names.contains(name),
            _ => false,
        },
        TypeModel::Option(item) => match v {
            ValueModel::Option(inner) => match inner {
                Some(p) => valid(*p, *item),
                None => true,
            },
            _ => false,
        },
        TypeModel::Result(ok, err) => match v {
            ValueModel::Result(outcome) => match outcome {
                Ok(payload) => match ok {
                    Some(p) => payload is Some && valid(*payload->Some_0, *p),
                    None => payload is None,
                },
                Err(payload) => match err {
                    Some(p) => payload is Some && valid(*payload->Some_0, *p),
                    None => payload is None,
                },
            },
            _ => false,
        },
        TypeModel::Flags(names) => match v {
            ValueModel::Flags(set) => forall|i: int|
                0 <= i < set.len() ==> names.contains(#[trigger] set[i]),
            _ => false,
        },
        TypeModel::Resource(_) => v is Resource,
    }
}

} // verus!
