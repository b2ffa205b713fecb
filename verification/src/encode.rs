//! Reading JSON as a typed value, under the type that says what is expected.

use vstd::prelude::*;
use crate::codec::{
    absent, encode, encode_fields, encode_flags, encode_float, encode_int, encode_items,
    encode_tuple, find_case, present, single_member,
};
use crate::json::{
    get, items_model, lemma_array_model, lemma_object_model, members_model, JsonValue,
};
use crate::types::{
    cases_model, fields_model, lemma_record_model, lemma_tuple_model, lemma_variant_model,
    names_model, types_model, Kind, TypeDescriptor,
};
use crate::value::{
    lemma_list_model, values_model, FloatModel, FloatValue, MismatchModel, Segment, TypeMismatch,
    Value, ValueModel,
};

verus! {

/// The mathematical value of what reading gives: the value, or the mismatch.
pub open spec fn outcome_model(r: Result<Value, TypeMismatch>) -> Result<ValueModel, MismatchModel> {
    match r {
        Ok(v) => Ok(v@),
        Err(e) => Err(e@),
    }
}

/// The integer that a JSON value is, if it is one between zero and `high`.
fn unsigned(v: &JsonValue, expected: Kind, high: u64) -> (r: Result<u64, TypeMismatch>)
    ensures
        match r {
            Ok(n) => encode_int(v@, expected, 0, high as int) == Ok::<int, MismatchModel>(n as int),
            Err(e) => encode_int(v@, expected, 0, high as int) == Err::<int, MismatchModel>(e@),
        },
{
    match v {
        JsonValue::Number(number) => match number.as_u64() {
            Some(n) => if n <= high {
                Ok(n)
            } else {
                Err(TypeMismatch::here(expected))
            },
            None => Err(TypeMismatch::here(expected)),
        },
        _ => Err(TypeMismatch::here(expected)),
    }
}

/// The integer that a JSON value is, if it is one between `low` and `high`.
fn signed(v: &JsonValue, expected: Kind, low: i64, high: i64) -> (r: Result<i64, TypeMismatch>)
    ensures
        match r {
            Ok(n) => encode_int(v@, expected, low as int, high as int) == Ok::<int, MismatchModel>(
                n as int,
            ),
            Err(e) => encode_int(v@, expected, low as int, high as int) == Err::<
                int,
                MismatchModel,
            >(e@),
        },
{
    match v {
        JsonValue::Number(number) => match number.as_i64() {
            Some(n) => if low <= n && n <= high {
                Ok(n)
            } else {
                Err(TypeMismatch::here(expected))
            },
            None => Err(TypeMismatch::here(expected)),
        },
        _ => Err(TypeMismatch::here(expected)),
    }
}

/// The floating-point value that a JSON value is read as.
fn float_from_json(v: &JsonValue, expected: Kind) -> (r: Result<FloatValue, TypeMismatch>)
    ensures
        match r {
            Ok(f) => encode_float(v@, expected) == Ok::<FloatModel, MismatchModel>(f@),
            Err(e) => encode_float(v@, expected) == Err::<FloatModel, MismatchModel>(e@),
        },
{
    match v {
        JsonValue::Number(number) => Ok(FloatValue::Finite(*number)),
        JsonValue::String(s) => {
            if *s == String::from_str("NaN") {
                Ok(FloatValue::NaN)
            } else if *s == String::from_str("Infinity") {
                Ok(FloatValue::Infinity)
            } else if *s == String::from_str("-Infinity") {
                Ok(FloatValue::NegInfinity)
            } else {
                Err(TypeMismatch::here(expected))
            }
        },
        _ => Err(TypeMismatch::here(expected)),
    }
}

/// Whether `name` is one of `names`.
pub fn contains_name(names: &Vec<String>, name: &String) -> (found: bool)
    ensures
        found == names_model(names@).contains(name@),
{
    let mut i: usize = 0;
    while i < names.len()
        invariant
            i <= names.len(),
            forall|k: int| 0 <= k < i ==> names_model(names@)[k] != name@,
        decreases names.len() - i,
    {
        if names[i] == *name {
            assert(names_model(names@)[i as int] == name@);
            return true;
        }
        i += 1;
    }
    false
}

/// The names of the bits that the items of an array set.
fn flags_from_json(items: &Vec<JsonValue>, names: &Vec<String>) -> (r: Result<
    Vec<String>,
    TypeMismatch,
>)
    ensures
        match r {
            Ok(set) => encode_flags(items_model(items@), names_model(names@), 0) == Ok::<
                Seq<Seq<char>>,
                MismatchModel,
            >(names_model(set@)),
            Err(e) => encode_flags(items_model(items@), names_model(names@), 0) == Err::<
                Seq<Seq<char>>,
                MismatchModel,
            >(e@),
        },
{
    let ghost jm = items_model(items@);
    let ghost nm = names_model(names@);
    let ghost full = encode_flags(jm, nm, 0);
    let mut out: Vec<String> = Vec::new();
    let mut i: usize = 0;
    while i < items.len()
        invariant
            i <= items.len(),
            jm == items_model(items@),
            nm == names_model(names@),
            full == encode_flags(jm, nm, 0),
            match encode_flags(jm, nm, i as int) {
                Ok(rest) => full == Ok::<Seq<Seq<char>>, MismatchModel>(names_model(out@) + rest),
                Err(m) => full == Err::<Seq<Seq<char>>, MismatchModel>(m),
            },
        decreases items.len() - i,
    {
        let ghost before = names_model(out@);
        match &items[i] {
            JsonValue::String(s) => {
                if contains_name(names, s) {
                    out.push(s.clone());
                    proof {
                        match encode_flags(jm, nm, i + 1) {
                            Ok(rest) => {
                                assert(names_model(out@) + rest =~= before + (seq![s@] + rest));
                            },
                            Err(_) => {},
                        }
                    }
                } else {
                    return Err(TypeMismatch::here(Kind::Flags).under(Segment::Index(i)));
                }
            },
            _ => {
                return Err(TypeMismatch::here(Kind::Flags).under(Segment::Index(i)));
            },
        }
        i += 1;
    }
    proof {
        assert(names_model(out@) + Seq::<Seq<char>>::empty() =~= names_model(out@));
    }
    Ok(out)
}

/// The position of the first case named `name`.
fn position_of_case(cases: &Vec<(String, Option<TypeDescriptor>)>, name: &String) -> (r: Option<
    usize,
>)
    ensures
        match r {
            Some(i) => i < cases.len() && find_case(cases_model(cases@), name@, 0) == Some(
                i as int,
            ),
            None => find_case(cases_model(cases@), name@, 0) is None,
        },
{
    let ghost cm = cases_model(cases@);
    let mut i: usize = 0;
    while i < cases.len()
        invariant
            i <= cases.len(),
            cm == cases_model(cases@),
            find_case(cm, name@, 0) == find_case(cm, name@, i as int),
        decreases cases.len() - i,
    {
        if cases[i].0 == *name {
            return Some(i);
        }
        i += 1;
    }
    None
}

/// The only member of an object that has exactly one.
fn only_member(v: &JsonValue) -> (r: Option<(&String, &JsonValue)>)
    ensures
        match r {
            Some((name, x)) => single_member(v@) == Some((name@, x@)),
            None => single_member(v@) is None,
        },
{
    match v {
        JsonValue::Object(members) => {
            proof {
                lemma_object_model(*members);
            }
            if members.len() == 1 {
                Some((&members[0].0, &members[0].1))
            } else {
                None
            }
        },
        _ => None,
    }
}

/// A payload that was read, as the payload of the member `key`.
fn present_payload(r: Result<Value, TypeMismatch>, key: &String) -> (out: Result<
    Option<Box<Value>>,
    TypeMismatch,
>)
    ensures
        match out {
            Ok(p) => p is Some && present(outcome_model(r), key@) == Ok::<
                Option<Box<ValueModel>>,
                MismatchModel,
            >(Some(Box::new((*p->Some_0)@))),
            Err(e) => present(outcome_model(r), key@) == Err::<
                Option<Box<ValueModel>>,
                MismatchModel,
            >(e@),
        },
{
    match r {
        Ok(v) => Ok(Some(Box::new(v))),
        Err(e) => Err(e.under(Segment::Key(key.clone()))),
    }
}

/// What stands in the member `key` where the type has no payload: `null`.
fn absent_payload(x: &JsonValue, key: &String, owner: Kind) -> (out: Result<
    Option<Box<Value>>,
    TypeMismatch,
>)
    ensures
        match out {
            Ok(p) => p is None && absent(x@, key@, owner) == Ok::<
                Option<Box<ValueModel>>,
                MismatchModel,
            >(None),
            Err(e) => absent(x@, key@, owner) == Err::<Option<Box<ValueModel>>, MismatchModel>(e@),
        },
{
    match x {
        JsonValue::Null => Ok(None),
        _ => Err(TypeMismatch::here(owner).under(Segment::Key(key.clone()))),
    }
}

/// The typed values of the items of an array, all under one type.
fn items_from_json(items: &Vec<JsonValue>, ty: &TypeDescriptor) -> (r: Result<
    Vec<Value>,
    TypeMismatch,
>)
    ensures
        match r {
            Ok(values) => encode_items(items_model(items@), ty@, 0) == Ok::<
                Seq<ValueModel>,
                MismatchModel,
            >(values_model(values@)),
            Err(e) => encode_items(items_model(items@), ty@, 0) == Err::<
                Seq<ValueModel>,
                MismatchModel,
            >(e@),
        },
    decreases ty, 1int,
{
    let ghost jm = items_model(items@);
    let ghost full = encode_items(jm, ty@, 0);
    let mut out: Vec<Value> = Vec::new();
    let mut i: usize = 0;
    while i < items.len()
        invariant
            i <= items.len(),
            jm == items_model(items@),
            full == encode_items(jm, ty@, 0),
            match encode_items(jm, ty@, i as int) {
                Ok(rest) => full == Ok::<Seq<ValueModel>, MismatchModel>(values_model(out@) + rest),
                Err(m) => full == Err::<Seq<ValueModel>, MismatchModel>(m),
            },
        decreases items.len() - i,
    {
        let ghost before = values_model(out@);
        match Value::from_json(&items[i], ty) {
            Ok(x) => {
                let ghost xm = x@;
                out.push(x);
                proof {
                    match encode_items(jm, ty@, i + 1) {
                        Ok(rest) => {
                            assert(values_model(out@) + rest =~= before + (seq![xm] + rest));
                        },
                        Err(_) => {},
                    }
                }
            },
            Err(e) => {
                return Err(e.under(Segment::Index(i)));
            },
        }
        i += 1;
    }
    proof {
        assert(values_model(out@) + Seq::<ValueModel>::empty() =~= values_model(out@));
    }
    Ok(out)
}

/// The typed values of the items of an array, each under the type at its own
/// position.
fn tuple_from_json(items: &Vec<JsonValue>, types: &Vec<TypeDescriptor>) -> (r: Result<
    Vec<Value>,
    TypeMismatch,
>)
    requires
        items.len() == types.len(),
    ensures
        match r {
            Ok(values) => encode_tuple(items_model(items@), types_model(types@), 0) == Ok::<
                Seq<ValueModel>,
                MismatchModel,
            >(values_model(values@)),
            Err(e) => encode_tuple(items_model(items@), types_model(types@), 0) == Err::<
                Seq<ValueModel>,
                MismatchModel,
            >(e@),
        },
    decreases types, 1int,
{
    let ghost jm = items_model(items@);
    let ghost tm = types_model(types@);
    let ghost full = encode_tuple(jm, tm, 0);
    let mut out: Vec<Value> = Vec::new();
    let mut i: usize = 0;
    while i < types.len()
        invariant
            i <= types.len(),
            items.len() == types.len(),
            jm == items_model(items@),
            tm == types_model(types@),
            full == encode_tuple(jm, tm, 0),
            match encode_tuple(jm, tm, i as int) {
                Ok(rest) => full == Ok::<Seq<ValueModel>, MismatchModel>(values_model(out@) + rest),
                Err(m) => full == Err::<Seq<ValueModel>, MismatchModel>(m),
            },
        decreases types.len() - i,
    {
        let ghost before = values_model(out@);
        match Value::from_json(&items[i], &types[i]) {
            Ok(x) => {
                let ghost xm = x@;
                out.push(x);
                proof {
                    match encode_tuple(jm, tm, i + 1) {
                        Ok(rest) => {
                            assert(values_model(out@) + rest =~= before + (seq![xm] + rest));
                        },
                        Err(_) => {},
                    }
                }
            },
            Err(e) => {
                return Err(e.under(Segment::Index(i)));
            },
        }
        i += 1;
    }
    proof {
        assert(values_model(out@) + Seq::<ValueModel>::empty() =~= values_model(out@));
    }
    Ok(out)
}

/// The typed values of the fields of a record, each read from the member that
/// has the field's name.
fn fields_from_json(
    members: &Vec<(String, JsonValue)>,
    fields: &Vec<(String, TypeDescriptor)>,
) -> (r: Result<Vec<(String, Value)>, TypeMismatch>)
    ensures
        match r {
            Ok(values) => encode_fields(members_model(members@), fields_model(fields@), 0) == Ok::<
                Seq<(Seq<char>, ValueModel)>,
                MismatchModel,
            >(crate::value::fields_model(values@)),
            Err(e) => encode_fields(members_model(members@), fields_model(fields@), 0) == Err::<
                Seq<(Seq<char>, ValueModel)>,
                MismatchModel,
            >(e@),
        },
    decreases fields, 1int,
{
    let ghost mm = members_model(members@);
    let ghost fm = fields_model(fields@);
    let ghost full = encode_fields(mm, fm, 0);
    let mut out: Vec<(String, Value)> = Vec::new();
    let mut i: usize = 0;
    while i < fields.len()
        invariant
            i <= fields.len(),
            mm == members_model(members@),
            fm == fields_model(fields@),
            full == encode_fields(mm, fm, 0),
            match encode_fields(mm, fm, i as int) {
                Ok(rest) => full == Ok::<Seq<(Seq<char>, ValueModel)>, MismatchModel>(
                    crate::value::fields_model(out@) + rest,
                ),
                Err(m) => full == Err::<Seq<(Seq<char>, ValueModel)>, MismatchModel>(m),
            },
        decreases fields.len() - i,
    {
        let ghost before = crate::value::fields_model(out@);
        let name = &fields[i].0;
        match get(members, name) {
            None => {
                return Err(
                    TypeMismatch::here(fields[i].1.kind()).under(Segment::Key(name.clone())),
                );
            },
            Some(x) => match Value::from_json(x, &fields[i].1) {
                Ok(v) => {
                    let ghost vm = v@;
                    out.push((name.clone(), v));
                    proof {
                        match encode_fields(mm, fm, i + 1) {
                            Ok(rest) => {
                                assert(crate::value::fields_model(out@) + rest =~= before + (seq![
                                    (name@, vm),
                                ] + rest));
                            },
                            Err(_) => {},
                        }
                    }
                },
                Err(e) => {
                    return Err(e.under(Segment::Key(name.clone())));
                },
            },
        }
        i += 1;
    }
    proof {
        assert(crate::value::fields_model(out@) + Seq::<(Seq<char>, ValueModel)>::empty()
            =~= crate::value::fields_model(out@));
    }
    Ok(out)
}

impl Value {
    /// Reads a JSON value as a value of the type `ty`.
    ///
    /// The result is the typed value that the JSON value denotes under `ty`,
    /// or, where its shape is not the one that `ty` asks for, the first
    /// mismatch in the order of the type's parts, with the path to the
    /// offending part. A number is never narrowed: an integer outside the
    /// range of its type is a mismatch.
    pub fn from_json(v: &JsonValue, ty: &TypeDescriptor) -> (r: Result<Value, TypeMismatch>)
        ensures
            outcome_model(r) == encode(v@, ty@),
        decreases ty, 0int,
    {
        match ty {
            TypeDescriptor::Bool => match v {
                JsonValue::Bool(b) => Ok(Value::Bool(*b)),
                _ => Err(TypeMismatch::here(Kind::Bool)),
            },
            TypeDescriptor::U8 => match unsigned(v, Kind::U8, 0xff) {
                Ok(n) => Ok(Value::U8(n as u8)),
                Err(e) => Err(e),
            },
            TypeDescriptor::U16 => match unsigned(v, Kind::U16, 0xffff) {
                Ok(n) => Ok(Value::U16(n as u16)),
                Err(e) => Err(e),
            },
            TypeDescriptor::U32 => match unsigned(v, Kind::U32, 0xffff_ffff) {
                Ok(n) => Ok(Value::U32(n as u32)),
                Err(e) => Err(e),
            },
            TypeDescriptor::U64 => match unsigned(v, Kind::U64, 0xffff_ffff_ffff_ffff) {
                Ok(n) => Ok(Value::U64(n)),
                Err(e) => Err(e),
            },
            TypeDescriptor::S8 => match signed(v, Kind::S8, -0x80, 0x7f) {
                Ok(n) => Ok(Value::S8(n as i8)),
                Err(e) => Err(e),
            },
            TypeDescriptor::S16 => match signed(v, Kind::S16, -0x8000, 0x7fff) {
                Ok(n) => Ok(Value::S16(n as i16)),
                Err(e) => Err(e),
            },
            TypeDescriptor::S32 => match signed(v, Kind::S32, -0x8000_0000, 0x7fff_ffff) {
                Ok(n) => Ok(Value::S32(n as i32)),
                Err(e) => Err(e),
            },
            TypeDescriptor::S64 => match signed(
                v,
                Kind::S64,
                -0x8000_0000_0000_0000,
                0x7fff_ffff_ffff_ffff,
            ) {
                Ok(n) => Ok(Value::S64(n)),
                Err(e) => Err(e),
            },
            TypeDescriptor::Float32 => match float_from_json(v, Kind::Float32) {
                Ok(f) => Ok(Value::Float32(f)),
                Err(e) => Err(e),
            },
            TypeDescriptor::Float64 => match float_from_json(v, Kind::Float64) {
                Ok(f) => Ok(Value::Float64(f)),
                Err(e) => Err(e),
            },
            TypeDescriptor::Char => match v {
                JsonValue::String(s) => {
                    if s.as_str().unicode_len() == 1 {
                        Ok(Value::Char(s.as_str().get_char(0)))
                    } else {
                        Err(TypeMismatch::here(Kind::Char))
                    }
                },
                _ => Err(TypeMismatch::here(Kind::Char)),
            },
            TypeDescriptor::String => match v {
                JsonValue::String(s) => Ok(Value::String(s.clone())),
                _ => Err(TypeMismatch::here(Kind::String)),
            },
            TypeDescriptor::List(item) => match v {
                JsonValue::Array(items) => {
                    proof {
                        lemma_array_model(*items);
                    }
                    match items_from_json(items, item) {
                        Ok(values) => {
                            proof {
                                lemma_list_model(values);
                            }
                            Ok(Value::List(values))
                        },
                        Err(e) => Err(e),
                    }
                },
                _ => Err(TypeMismatch::here(Kind::List)),
            },
            TypeDescriptor::Record(fields) => {
                proof {
                    lemma_record_model(*fields);
                }
                match v {
                    JsonValue::Object(members) => {
                        proof {
                            lemma_object_model(*members);
                        }
                        match fields_from_json(members, fields) {
                            Ok(values) => {
                                proof {
                                    crate::value::lemma_record_model(values);
                                }
                                Ok(Value::Record(values))
                            },
                            Err(e) => Err(e),
                        }
                    },
                    _ => Err(TypeMismatch::here(Kind::Record)),
                }
            },
            TypeDescriptor::Tuple(types) => {
                proof {
                    lemma_tuple_model(*types);
                }
                match v {
                    JsonValue::Array(items) => {
                        proof {
                            lemma_array_model(*items);
                        }
                        if items.len() == types.len() {
                            match tuple_from_json(items, types) {
                                Ok(values) => {
                                    proof {
                                        lemma_list_model(values);
                                    }
                                    Ok(Value::Tuple(values))
                                },
                                Err(e) => Err(e),
                            }
                        } else {
                            Err(TypeMismatch::here(Kind::Tuple))
                        }
                    },
                    _ => Err(TypeMismatch::here(Kind::Tuple)),
                }
            },
            TypeDescriptor::Variant(cases) => {
                proof {
                    lemma_variant_model(*cases);
                }
                match only_member(v) {
                    Some((name, x)) => match position_of_case(cases, name) {
                        Some(i) => {
                            let payload = match &cases[i].1 {
                                Some(p) => present_payload(Value::from_json(x, p), name),
                                None => absent_payload(x, name, Kind::Variant),
                            };
                            match payload {
                                Ok(p) => Ok(Value::Variant(name.clone(), p)),
                                Err(e) => Err(e),
                            }
                        },
                        None => Err(TypeMismatch::here(Kind::Variant)),
                    },
                    None => Err(TypeMismatch::here(Kind::Variant)),
                }
            },
            TypeDescriptor::Enum(names) => match v {
                JsonValue::String(s) => {
                    if contains_name(names, s) {
                        Ok(Value::Enum(s.clone()))
                    } else {
                        Err(TypeMismatch::here(Kind::Enum))
                    }
                },
                _ => Err(TypeMismatch::here(Kind::Enum)),
            },
            TypeDescriptor::Option(item) => match v {
                JsonValue::Null => Ok(Value::Option(None)),
                _ => match only_member(v) {
                    Some((name, x)) => {
                        if *name == String::from_str("some") {
                            match present_payload(Value::from_json(x, item), name) {
                                Ok(p) => Ok(Value::Option(p)),
                                Err(e) => Err(e),
                            }
                        } else {
                            Err(TypeMismatch::here(Kind::Option))
                        }
                    },
                    None => Err(TypeMismatch::here(Kind::Option)),
                },
            },
            TypeDescriptor::Result(ok, err) => match only_member(v) {
                Some((name, x)) => {
                    if *name == String::from_str("ok") {
                        let payload = match ok {
                            Some(p) => present_payload(Value::from_json(x, p), name),
                            None => absent_payload(x, name, Kind::Result),
                        };
                        match payload {
                            Ok(p) => Ok(Value::Result(Ok(p))),
                            Err(e) => Err(e),
                        }
                    } else if *name == String::from_str("err") {
                        let payload = match err {
                            Some(p) => present_payload(Value::from_json(x, p), name),
                            None => absent_payload(x, name, Kind::Result),
                        };
                        match payload {
                            Ok(p) => Ok(Value::Result(Err(p))),
                            Err(e) => Err(e),
                        }
                    } else {
                        Err(TypeMismatch::here(Kind::Result))
                    }
                },
                None => Err(TypeMismatch::here(Kind::Result)),
            },
            TypeDescriptor::Flags(names) => match v {
                JsonValue::Array(items) => {
                    proof {
                        lemma_array_model(*items);
                    }
                    match flags_from_json(items, names) {
                        Ok(set) => Ok(Value::Flags(set)),
                        Err(e) => Err(e),
                    }
                },
                _ => Err(TypeMismatch::here(Kind::Flags)),
            },
            TypeDescriptor::Resource(_) => match unsigned(v, Kind::Resource, 0xffff_ffff) {
                Ok(n) => Ok(Value::Resource(n as u32)),
                Err(e) => Err(e),
            },
        }
    }
}

} // verus!
