//! What holds of the codec and the schema mapper as a whole.
//!
//! * [`scalar_round_trip`]: reading a JSON value under a scalar type and
//!   writing it again gives the JSON value back.
//! * [`round_trip`]: writing a value of a type and reading it again gives
//!   the value back.
//! * [`encode_is_valid`]: what is read under a type is a value of the type.
//! * [`schema_agrees`]: the schema of a type accepts exactly what is read
//!   under the type.
//! * [`decode_is_accepted`]: the schema of a type accepts what a value of
//!   the type is written as.
//! * [`body_schema_agrees`]: the schema of a request body accepts exactly
//!   the bodies from which the arguments are read.
//!
//! The laws that speak of schemas take JSON values in which no object has
//! two members of one name, as a JSON parser gives them, and types that are
//! well formed. Numbers are as the codec sees them: an integer is a number
//! that was written without fraction or exponent.

use vstd::prelude::*;
use crate::codec::{
    decode, encode, encode_fields, encode_flags, encode_float, encode_items, encode_tuple,
    err_key, find_case, infinity_text, nan_text, neg_infinity_text, ok_key, single_member, some_key,
    valid,
};
use crate::dispatch::arguments_of;
use crate::json::{lemma_lookup_finds, lemma_lookup_from, lookup, JsonModel};
use crate::schema::{
    float_schema, names_property, object_schema_of, schema_of, tagged_schema, SchemaModel,
};
use crate::types::{case_names, distinct, field_names, Kind, TypeModel};
use crate::value::{MismatchModel, ValueModel};

verus! {

/// Whether a member for the field is missing or has another shape than the
/// field's type asks for.
spec fn field_fails(members: Seq<(Seq<char>, JsonModel)>, field: (Seq<char>, TypeModel)) -> bool {
    match lookup(members, field.0) {
        Some(x) => encode(x, field.1) is Err,
        None => true,
    }
}

/// Whether an item names one of the bits.
spec fn names_flag(item: JsonModel, names: Seq<Seq<char>>) -> bool {
    match item {
        JsonModel::String(s) => names.contains(s),
        _ => false,
    }
}

/// The items of a list are read one by one: all succeed, or one fails.
proof fn lemma_encode_items(items: Seq<JsonModel>, t: TypeModel, from: int)
    requires
        0 <= from <= items.len(),
    ensures
        match encode_items(items, t, from) {
            Ok(values) => {
                &&& values.len() == items.len() - from
                &&& forall|k: int|
                    0 <= k < values.len() ==> encode(items[from + k], t) == Ok::<
                        ValueModel,
                        MismatchModel,
                    >(#[trigger] values[k])
            },
            Err(_) => exists|k: int| from <= k < items.len() && #[trigger] encode(items[k], t) is Err,
        },
    decreases items.len() - from,
{
    if from < items.len() {
        match encode(items[from], t) {
            Ok(v) => {
                lemma_encode_items(items, t, from + 1);
                match encode_items(items, t, from + 1) {
                    Ok(rest) => {
                        let values = seq![v] + rest;
                        assert forall|k: int| 0 <= k < values.len() implies encode(
                            items[from + k],
                            t,
                        ) == Ok::<ValueModel, MismatchModel>(#[trigger] values[k]) by {
                            if k > 0 {
                                assert(values[k] == rest[k - 1]);
                            }
                        }
                    },
                    Err(_) => {
                        let k = choose|k: int|
                            from + 1 <= k < items.len() && #[trigger] encode(items[k], t) is Err;
                        assert(encode(items[k], t) is Err);
                    },
                }
            },
            Err(_) => {
                assert(encode(items[from], t) is Err);
            },
        }
    }
}

/// The items of a tuple are read one by one: all succeed, or one fails.
proof fn lemma_encode_tuple(items: Seq<JsonModel>, types: Seq<TypeModel>, from: int)
    requires
        0 <= from <= types.len(),
    ensures
        match encode_tuple(items, types, from) {
            Ok(values) => {
                &&& values.len() == types.len() - from
                &&& forall|k: int|
                    0 <= k < values.len() ==> encode(items[from + k], types[from + k]) == Ok::<
                        ValueModel,
                        MismatchModel,
                    >(#[trigger] values[k])
            },
            Err(_) => exists|k: int|
                from <= k < types.len() && #[trigger] encode(items[k], types[k]) is Err,
        },
    decreases types.len() - from,
{
    if from < types.len() {
        match encode(items[from], types[from]) {
            Ok(v) => {
                lemma_encode_tuple(items, types, from + 1);
                match encode_tuple(items, types, from + 1) {
                    Ok(rest) => {
                        let values = seq![v] + rest;
                        assert forall|k: int| 0 <= k < values.len() implies encode(
                            items[from + k],
                            types[from + k],
                        ) == Ok::<ValueModel, MismatchModel>(#[trigger] values[k]) by {
                            if k > 0 {
                                assert(values[k] == rest[k - 1]);
                            }
                        }
                    },
                    Err(_) => {
                        let k = choose|k: int|
                            from + 1 <= k < types.len() && #[trigger] encode(
                                items[k],
                                types[k],
                            ) is Err;
                        assert(encode(items[k], types[k]) is Err);
                    },
                }
            },
            Err(_) => {
                assert(encode(items[from], types[from]) is Err);
            },
        }
    }
}

/// The fields of a record are read one by one: all succeed, or one fails.
proof fn lemma_encode_fields(
    members: Seq<(Seq<char>, JsonModel)>,
    fields: Seq<(Seq<char>, TypeModel)>,
    from: int,
)
    requires
        0 <= from <= fields.len(),
    ensures
        match encode_fields(members, fields, from) {
            Ok(values) => {
                &&& values.len() == fields.len() - from
                &&& forall|k: int|
                    0 <= k < values.len() ==> {
                        &&& (#[trigger] values[k]).0 == fields[from + k].0
                        &&& lookup(members, fields[from + k].0) is Some
                        &&& encode(
                            lookup(members, fields[from + k].0)->Some_0,
                            fields[from + k].1,
                        ) == Ok::<ValueModel, MismatchModel>(values[k].1)
                    }
            },
            Err(_) => exists|k: int|
                from <= k < fields.len() && field_fails(members, #[trigger] fields[k]),
        },
    decreases fields.len() - from,
{
    if from < fields.len() {
        let name = fields[from].0;
        match lookup(members, name) {
            None => {
                assert(field_fails(members, fields[from]));
            },
            Some(x) => match encode(x, fields[from].1) {
                Ok(v) => {
                    lemma_encode_fields(members, fields, from + 1);
                    match encode_fields(members, fields, from + 1) {
                        Ok(rest) => {
                            let values = seq![(name, v)] + rest;
                            assert forall|k: int| 0 <= k < values.len() implies {
                                &&& (#[trigger] values[k]).0 == fields[from + k].0
                                &&& lookup(members, fields[from + k].0) is Some
                                &&& encode(
                                    lookup(members, fields[from + k].0)->Some_0,
                                    fields[from + k].1,
                                ) == Ok::<ValueModel, MismatchModel>(values[k].1)
                            } by {
                                if k > 0 {
                                    assert(values[k] == rest[k - 1]);
                                }
                            }
                        },
                        Err(_) => {
                            let k = choose|k: int|
                                from + 1 <= k < fields.len() && field_fails(
                                    members,
                                    #[trigger] fields[k],
                                );
                            assert(field_fails(members, fields[k]));
                        },
                    }
                },
                Err(_) => {
                    assert(field_fails(members, fields[from]));
                },
            },
        }
    }
}

/// The names of set bits are read one by one: all are names of bits, or one
/// is not.
proof fn lemma_encode_flags(items: Seq<JsonModel>, names: Seq<Seq<char>>, from: int)
    requires
        0 <= from <= items.len(),
    ensures
        match encode_flags(items, names, from) {
            Ok(set) => {
                &&& set.len() == items.len() - from
                &&& forall|k: int|
                    0 <= k < set.len() ==> {
                        &&& items[from + k] == JsonModel::String(#[trigger] set[k])
                        &&& names.contains(set[k])
                    }
            },
            Err(_) => exists|k: int|
                from <= k < items.len() && !names_flag(#[trigger] items[k], names),
        },
    decreases items.len() - from,
{
    if from < items.len() {
        match items[from] {
            JsonModel::String(s) => {
                if names.contains(s) {
                    lemma_encode_flags(items, names, from + 1);
                    match encode_flags(items, names, from + 1) {
                        Ok(rest) => {
                            let set = seq![s] + rest;
                            assert forall|k: int| 0 <= k < set.len() implies {
                                &&& items[from + k] == JsonModel::String(#[trigger] set[k])
                                &&& names.contains(set[k])
                            } by {
                                if k > 0 {
                                    assert(set[k] == rest[k - 1]);
                                }
                            }
                        },
                        Err(_) => {
                            let k = choose|k: int|
                                from + 1 <= k < items.len() && !names_flag(
                                    #[trigger] items[k],
                                    names,
                                );
                            assert(!names_flag(items[k], names));
                        },
                    }
                } else {
                    assert(!names_flag(items[from], names));
                }
            },
            _ => {
                assert(!names_flag(items[from], names));
            },
        }
    }
}

/// The three names of what no number expresses differ from one another.
proof fn lemma_float_texts_differ()
    ensures
        nan_text() != infinity_text(),
        nan_text() != neg_infinity_text(),
        infinity_text() != neg_infinity_text(),
{
    reveal_strlit("NaN");
    reveal_strlit("Infinity");
    reveal_strlit("-Infinity");
    assert(nan_text().len() == 3);
    assert(infinity_text().len() == 8);
    assert(neg_infinity_text().len() == 9);
}

/// The member names that mark success and failure differ.
proof fn lemma_result_keys_differ()
    ensures
        ok_key() != err_key(),
{
    reveal_strlit("ok");
    reveal_strlit("err");
    assert(ok_key().len() == 2);
    assert(err_key().len() == 3);
}

/// Reading a JSON value under a scalar type and writing the typed value
/// again gives the JSON value back.
pub proof fn scalar_round_trip(j: JsonModel, t: TypeModel)
    requires
        t.is_scalar(),
        encode(j, t) is Ok,
    ensures
        decode(encode(j, t)->Ok_0) == j,
{
    match t {
        TypeModel::Char => {
            let s = j->String_0;
            assert(seq![s[0]] =~= s);
        },
        _ => {},
    }
}

/// What reading gives is a value of the type under which it was read.
pub proof fn encode_is_valid(j: JsonModel, t: TypeModel)
    requires
        encode(j, t) is Ok,
    ensures
        valid(encode(j, t)->Ok_0, t),
    decreases t,
{
    match t {
        TypeModel::List(item) => {
            let items = j->Array_0;
            lemma_encode_items(items, *item, 0);
            let values = encode_items(items, *item, 0)->Ok_0;
            assert forall|i: int| 0 <= i < values.len() implies valid(
                #[trigger] values[i],
                *item,
            ) by {
                assert(encode(items[0 + i], *item) == Ok::<ValueModel, MismatchModel>(values[i]));
                encode_is_valid(items[i], *item);
            }
        },
        TypeModel::Record(fields) => {
            let members = j->Object_0;
            lemma_encode_fields(members, fields, 0);
            let values = encode_fields(members, fields, 0)->Ok_0;
            assert forall|i: int| 0 <= i < fields.len() implies {
                &&& (#[trigger] values[i]).0 == fields[i].0
                &&& valid(values[i].1, fields[i].1)
            } by {
                assert(values[i].0 == fields[0 + i].0);
                encode_is_valid(lookup(members, fields[i].0)->Some_0, fields[i].1);
            }
        },
        TypeModel::Tuple(types) => {
            let items = j->Array_0;
            lemma_encode_tuple(items, types, 0);
            let values = encode_tuple(items, types, 0)->Ok_0;
            assert forall|i: int| 0 <= i < types.len() implies valid(
                #[trigger] values[i],
                types[i],
            ) by {
                assert(encode(items[0 + i], types[0 + i]) == Ok::<ValueModel, MismatchModel>(
                    values[i],
                ));
                encode_is_valid(items[i], types[i]);
            }
        },
        TypeModel::Variant(cases) => {
            let (name, x) = single_member(j)->Some_0;
            let i = find_case(cases, name, 0)->Some_0;
            match cases[i].1 {
                Some(p) => {
                    encode_is_valid(x, p);
                },
                None => {},
            }
        },
        TypeModel::Option(item) => {
            if !(j is Null) {
                let (name, x) = single_member(j)->Some_0;
                encode_is_valid(x, *item);
            }
        },
        TypeModel::Result(ok, err) => {
            let (name, x) = single_member(j)->Some_0;
            if name == ok_key() {
                match ok {
                    Some(p) => {
                        encode_is_valid(x, *p);
                    },
                    None => {},
                }
            } else {
                match err {
                    Some(p) => {
                        encode_is_valid(x, *p);
                    },
                    None => {},
                }
            }
        },
        TypeModel::Flags(names) => {
            let items = j->Array_0;
            lemma_encode_flags(items, names, 0);
        },
        _ => {},
    }
}

/// A case that is found has the name that was looked for, and lies within
/// the cases.
proof fn lemma_find_case(cases: Seq<(Seq<char>, Option<TypeModel>)>, name: Seq<char>, from: int)
    requires
        0 <= from,
    ensures
        match find_case(cases, name, from) {
            Some(i) => from <= i < cases.len() && cases[i].0 == name && forall|k: int|
                from <= k < i ==> (#[trigger] cases[k]).0 != name,
            None => forall|k: int| from <= k < cases.len() ==> (#[trigger] cases[k]).0 != name,
        },
    decreases cases.len() - from,
{
    if from < cases.len() && cases[from].0 != name {
        lemma_find_case(cases, name, from + 1);
    }
}

/// Writing a value of a type and reading the JSON value again under the
/// type gives the value back. This holds of every value of every type that
/// is well formed.
pub proof fn round_trip(v: ValueModel, t: TypeModel)
    requires
        t.well_formed(),
        valid(v, t),
    ensures
        encode(decode(v), t) == Ok::<ValueModel, MismatchModel>(v),
    decreases t,
{
    match t {
        TypeModel::Float32 | TypeModel::Float64 => {
            lemma_float_texts_differ();
        },
        TypeModel::Char => {},
        TypeModel::List(item) => {
            let values = v->List_0;
            let items = decode(v)->Array_0;
            assert forall|i: int| 0 <= i < items.len() implies #[trigger] encode(items[i], *item)
                == Ok::<ValueModel, MismatchModel>(values[i]) by {
                round_trip(values[i], *item);
            }
            lemma_encode_items(items, *item, 0);
            match encode_items(items, *item, 0) {
                Ok(read) => {
                    assert forall|k: int| 0 <= k < read.len() implies read[k] == values[k] by {
                        assert(encode(items[0 + k], *item) == Ok::<ValueModel, MismatchModel>(
                            read[k],
                        ));
                        assert(encode(items[k], *item) == Ok::<ValueModel, MismatchModel>(
                            values[k],
                        ));
                    }
                    assert(read =~= values);
                },
                Err(_) => {
                    let k = choose|k: int|
                        0 <= k < items.len() && #[trigger] encode(items[k], *item) is Err;
                    assert(encode(items[k], *item) == Ok::<ValueModel, MismatchModel>(values[k]));
                },
            }
        },
        TypeModel::Record(fields) => {
            let values = v->Record_0;
            let members = decode(v)->Object_0;
            assert forall|i: int| 0 <= i < fields.len() implies {
                &&& lookup(members, (#[trigger] fields[i]).0) == Some(members[i].1)
                &&& encode(members[i].1, fields[i].1) == Ok::<ValueModel, MismatchModel>(
                    values[i].1,
                )
            } by {
                assert(values[i].0 == fields[i].0);
                assert forall|k: int| 0 <= k < i implies (#[trigger] members[k]).0
                    != members[i].0 by {
                    assert(values[k].0 == fields[k].0);
                    assert(field_names(fields)[k] != field_names(fields)[i]);
                }
                lemma_lookup_finds(members, i);
                round_trip(values[i].1, fields[i].1);
            }
            lemma_encode_fields(members, fields, 0);
            match encode_fields(members, fields, 0) {
                Ok(read) => {
                    assert forall|k: int| 0 <= k < read.len() implies read[k] == values[k] by {
                        assert(read[k].0 == fields[0 + k].0);
                        assert(lookup(members, fields[k].0) == Some(members[k].1));
                        assert(values[k].0 == fields[k].0);
                    }
                    assert(read =~= values);
                },
                Err(_) => {
                    let k = choose|k: int|
                        0 <= k < fields.len() && field_fails(members, #[trigger] fields[k]);
                    assert(lookup(members, fields[k].0) == Some(members[k].1));
                },
            }
        },
        TypeModel::Tuple(types) => {
            let values = v->Tuple_0;
            let items = decode(v)->Array_0;
            assert forall|i: int| 0 <= i < types.len() implies #[trigger] encode(
                items[i],
                types[i],
            ) == Ok::<ValueModel, MismatchModel>(values[i]) by {
                round_trip(values[i], types[i]);
            }
            lemma_encode_tuple(items, types, 0);
            match encode_tuple(items, types, 0) {
                Ok(read) => {
                    assert forall|k: int| 0 <= k < read.len() implies read[k] == values[k] by {
                        assert(encode(items[0 + k], types[0 + k]) == Ok::<
                            ValueModel,
                            MismatchModel,
                        >(read[k]));
                        assert(encode(items[k], types[k]) == Ok::<ValueModel, MismatchModel>(
                            values[k],
                        ));
                    }
                    assert(read =~= values);
                },
                Err(_) => {
                    let k = choose|k: int|
                        0 <= k < types.len() && #[trigger] encode(items[k], types[k]) is Err;
                    assert(encode(items[k], types[k]) == Ok::<ValueModel, MismatchModel>(
                        values[k],
                    ));
                },
            }
        },
        TypeModel::Variant(cases) => {
            let name = v->Variant_0;
            let payload = v->Variant_1;
            let i = find_case(cases, name, 0)->Some_0;
            assert(single_member(decode(v)) is Some);
            match cases[i].1 {
                Some(p) => {
                    round_trip(*payload->Some_0, p);
                },
                None => {},
            }
        },
        TypeModel::Option(item) => {
            match v->Option_0 {
                Some(p) => {
                    round_trip(*p, *item);
                    assert(single_member(decode(v)) is Some);
                },
                None => {},
            }
        },
        TypeModel::Result(ok, err) => {
            lemma_result_keys_differ();
            assert(single_member(decode(v)) is Some);
            match v->Result_0 {
                Ok(payload) => match ok {
                    Some(p) => {
                        round_trip(*payload->Some_0, *p);
                    },
                    None => {},
                },
                Err(payload) => match err {
                    Some(p) => {
                        round_trip(*payload->Some_0, *p);
                    },
                    None => {},
                },
            }
        },
        TypeModel::Flags(names) => {
            let set = v->Flags_0;
            let items = decode(v)->Array_0;
            lemma_encode_flags(items, names, 0);
            match encode_flags(items, names, 0) {
                Ok(read) => {
                    assert forall|k: int| 0 <= k < read.len() implies read[k] == set[k] by {
                        assert(items[0 + k] == JsonModel::String(read[k]));
                    }
                    assert(read =~= set);
                },
                Err(_) => {
                    let k = choose|k: int|
                        0 <= k < items.len() && !names_flag(#[trigger] items[k], names);
                    assert(names.contains(set[k]));
                },
            }
        },
        _ => {},
    }
}

/// A closed object with one property accepts the objects whose only member
/// has the property's name and a value that the property's schema accepts.
proof fn lemma_tagged_schema(key: Seq<char>, payload: SchemaModel, j: JsonModel)
    requires
        j.well_formed(),
    ensures
        tagged_schema(key, payload).accepts(j) <==> {
            &&& single_member(j) is Some
            &&& single_member(j)->Some_0.0 == key
            &&& payload.accepts(single_member(j)->Some_0.1)
        },
{
    let properties = seq![(key, payload)];
    if tagged_schema(key, payload).accepts(j) {
        let members = j->Object_0;
        assert(properties[0].0 == key);
        let x = lookup(members, key)->Some_0;
        lemma_lookup_from(members, key, 0);
        assert(members.len() >= 1);
        if members.len() >= 2 {
            assert(names_property(properties, members[0].0));
            assert(names_property(properties, members[1].0));
        }
        assert(names_property(properties, members[0].0));
    }
    if single_member(j) is Some && single_member(j)->Some_0.0 == key && payload.accepts(
        single_member(j)->Some_0.1,
    ) {
        let members = j->Object_0;
        assert(members[0] == (key, members[0].1));
        assert(lookup(members, key) == Some(members[0].1));
        assert forall|k: int| 0 <= k < members.len() implies names_property(
            properties,
            (#[trigger] members[k]).0,
        ) by {
            assert(properties[0].0 == members[k].0);
        }
    }
}

/// The schema of the floating-point types accepts what is read as a
/// floating-point value.
proof fn lemma_float_schema(j: JsonModel, expected: Kind)
    ensures
        float_schema().accepts(j) <==> encode_float(j, expected) is Ok,
{
    reveal_with_fuel(SchemaModel::accepts, 2);
    let names = seq![nan_text(), infinity_text(), neg_infinity_text()];
    let alternatives = seq![SchemaModel::Number, SchemaModel::Choice(names)];
    assert(float_schema() == SchemaModel::AnyOf(alternatives));
    if float_schema().accepts(j) {
        let i = choose|i: int| 0 <= i < alternatives.len() && (#[trigger] alternatives[i]).accepts(j);
        if i == 1 {
            let s = j->String_0;
            let k = choose|k: int| 0 <= k < names.len() && names[k] == s;
        }
    }
    if encode_float(j, expected) is Ok {
        match j {
            JsonModel::Number(_) => {
                assert(alternatives[0].accepts(j));
            },
            JsonModel::String(s) => {
                if s == nan_text() {
                    assert(names[0] == s);
                } else if s == infinity_text() {
                    assert(names[1] == s);
                } else {
                    assert(names[2] == s);
                }
                assert(alternatives[1].accepts(j));
            },
            _ => {},
        }
    }
}

/// The schema of a list accepts an array where every item is read.
proof fn lemma_list_schema(items: Seq<JsonModel>, item: TypeModel)
    requires
        forall|i: int|
            0 <= i < items.len() ==> (schema_of(item).accepts(#[trigger] items[i]) <==> encode(
                items[i],
                item,
            ) is Ok),
    ensures
        SchemaModel::Array(Box::new(schema_of(item))).accepts(JsonModel::Array(items))
            <==> encode_items(items, item, 0) is Ok,
{
    let schema = SchemaModel::Array(Box::new(schema_of(item)));
    assert(*schema->Array_0 == schema_of(item));
    lemma_encode_items(items, item, 0);
    match encode_items(items, item, 0) {
        Ok(values) => {
            assert forall|i: int| 0 <= i < items.len() implies schema_of(item).accepts(
                #[trigger] items[i],
            ) by {
                assert(encode(items[0 + i], item) == Ok::<ValueModel, MismatchModel>(values[i]));
            }
        },
        Err(_) => {
            let k = choose|k: int| 0 <= k < items.len() && #[trigger] encode(items[k], item) is Err;
            let j = JsonModel::Array(items);
            assert(j->Array_0 == items);
            if schema.accepts(j) {
                assert((*schema->Array_0).accepts(j->Array_0[k]));
            }
        },
    }
}

/// The schema of a tuple accepts an array of its length where every item is
/// read under the type of its place.
proof fn lemma_tuple_schema(items: Seq<JsonModel>, types: Seq<TypeModel>)
    requires
        items.len() == types.len(),
        forall|i: int|
            0 <= i < types.len() ==> (schema_of(#[trigger] types[i]).accepts(items[i]) <==> encode(
                items[i],
                types[i],
            ) is Ok),
    ensures
        schema_of(TypeModel::Tuple(types)).accepts(JsonModel::Array(items)) <==> encode_tuple(
            items,
            types,
            0,
        ) is Ok,
{
    let schemas = schema_of(TypeModel::Tuple(types))->Tuple_0;
    lemma_encode_tuple(items, types, 0);
    match encode_tuple(items, types, 0) {
        Ok(values) => {
            assert forall|i: int| 0 <= i < schemas.len() implies (#[trigger] schemas[i]).accepts(
                items[i],
            ) by {
                assert(encode(items[0 + i], types[0 + i]) == Ok::<ValueModel, MismatchModel>(
                    values[i],
                ));
                assert(schema_of(types[i]).accepts(items[i]) <==> encode(items[i], types[i]) is Ok);
            }
        },
        Err(_) => {
            let k = choose|k: int|
                0 <= k < types.len() && #[trigger] encode(items[k], types[k]) is Err;
            assert(schema_of(types[k]).accepts(items[k]) <==> encode(items[k], types[k]) is Ok);
            assert(!schemas[k].accepts(items[k]));
        },
    }
}

/// Whether the member for a field is there and accepted by the schema of
/// the field's type.
spec fn field_accepted(members: Seq<(Seq<char>, JsonModel)>, field: (Seq<char>, TypeModel)) -> bool {
    match lookup(members, field.0) {
        Some(x) => schema_of(field.1).accepts(x),
        None => false,
    }
}

/// The schema of a record accepts an object where every field is read.
proof fn lemma_record_schema(
    members: Seq<(Seq<char>, JsonModel)>,
    fields: Seq<(Seq<char>, TypeModel)>,
)
    requires
        forall|i: int|
            0 <= i < fields.len() ==> (field_accepted(members, #[trigger] fields[i])
                <==> !field_fails(members, fields[i])),
    ensures
        object_schema_of(fields).accepts(JsonModel::Object(members)) <==> encode_fields(
            members,
            fields,
            0,
        ) is Ok,
{
    let properties = object_schema_of(fields)->Object_properties;
    lemma_encode_fields(members, fields, 0);
    match encode_fields(members, fields, 0) {
        Ok(values) => {
            assert forall|i: int| 0 <= i < properties.len() implies match lookup(
                members,
                (#[trigger] properties[i]).0,
            ) {
                Some(x) => properties[i].1.accepts(x),
                None => false,
            } by {
                assert(values[i].0 == fields[0 + i].0);
                assert(!field_fails(members, fields[i]));
                assert(field_accepted(members, fields[i]));
            }
        },
        Err(_) => {
            let k = choose|k: int|
                0 <= k < fields.len() && field_fails(members, #[trigger] fields[k]);
            assert(properties[k].0 == fields[k].0);
            assert(!field_accepted(members, fields[k]));
        },
    }
}

/// The schema of flags accepts an array where every item names a bit.
proof fn lemma_flags_schema(items: Seq<JsonModel>, names: Seq<Seq<char>>)
    ensures
        schema_of(TypeModel::Flags(names)).accepts(JsonModel::Array(items)) <==> encode_flags(
            items,
            names,
            0,
        ) is Ok,
{
    let choice = SchemaModel::Choice(names);
    let schema = SchemaModel::Array(Box::new(choice));
    assert(*schema->Array_0 == choice);
    lemma_encode_flags(items, names, 0);
    match encode_flags(items, names, 0) {
        Ok(set) => {
            assert forall|i: int| 0 <= i < items.len() implies choice.accepts(
                #[trigger] items[i],
            ) by {
                assert(items[0 + i] == JsonModel::String(set[i]));
            }
        },
        Err(_) => {
            let k = choose|k: int| 0 <= k < items.len() && !names_flag(#[trigger] items[k], names);
            let j = JsonModel::Array(items);
            assert(j->Array_0 == items);
            if schema.accepts(j) {
                assert((*schema->Array_0).accepts(j->Array_0[k]));
            }
        },
    }
}

/// The schema of a payload that may be absent: that of its type, or `null`.
spec fn payload_schema_of(payload: Option<TypeModel>) -> SchemaModel {
    match payload {
        Some(p) => schema_of(p),
        None => SchemaModel::Null,
    }
}

/// Whether a JSON value is read as a payload that may be absent.
spec fn payload_reads(payload: Option<TypeModel>, x: JsonModel) -> bool {
    match payload {
        Some(p) => encode(x, p) is Ok,
        None => x is Null,
    }
}

/// The schema of a variant accepts the objects whose only member is named
/// after a case and holds what is read as the payload of the case.
proof fn lemma_variant_schema(j: JsonModel, cases: Seq<(Seq<char>, Option<TypeModel>)>)
    requires
        j.well_formed(),
        distinct(case_names(cases)),
        forall|i: int|
            0 <= i < cases.len() && single_member(j) is Some ==> (payload_schema_of(
                (#[trigger] cases[i]).1,
            ).accepts(single_member(j)->Some_0.1) <==> payload_reads(
                cases[i].1,
                single_member(j)->Some_0.1,
            )),
    ensures
        schema_of(TypeModel::Variant(cases)).accepts(j) <==> encode(j, TypeModel::Variant(cases)) is Ok,
{
    let t = TypeModel::Variant(cases);
    let alternatives = schema_of(t)->AnyOf_0;
    if schema_of(t).accepts(j) {
        let i = choose|i: int|
            0 <= i < alternatives.len() && (#[trigger] alternatives[i]).accepts(j);
        lemma_tagged_schema(cases[i].0, payload_schema_of(cases[i].1), j);
        let (name, x) = single_member(j)->Some_0;
        lemma_find_case(cases, name, 0);
        let found = find_case(cases, name, 0)->Some_0;
        if found != i {
            assert(case_names(cases)[found] == case_names(cases)[i]);
        }
        assert(payload_reads(cases[i].1, x));
    }
    if encode(j, t) is Ok {
        let (name, x) = single_member(j)->Some_0;
        lemma_find_case(cases, name, 0);
        let i = find_case(cases, name, 0)->Some_0;
        assert(payload_reads(cases[i].1, x));
        lemma_tagged_schema(cases[i].0, payload_schema_of(cases[i].1), j);
        assert(alternatives[i].accepts(j));
    }
}

/// The schema of an option accepts `null` and the objects whose only member
/// is named `some` and holds what is read under the type.
proof fn lemma_option_schema(j: JsonModel, item: TypeModel)
    requires
        j.well_formed(),
        single_member(j) is Some ==> (schema_of(item).accepts(single_member(j)->Some_0.1)
            <==> encode(single_member(j)->Some_0.1, item) is Ok),
    ensures
        schema_of(TypeModel::Option(Box::new(item))).accepts(j) <==> encode(
            j,
            TypeModel::Option(Box::new(item)),
        ) is Ok,
{
    let t = TypeModel::Option(Box::new(item));
    let alternatives = schema_of(t)->AnyOf_0;
    lemma_tagged_schema(some_key(), schema_of(item), j);
    if schema_of(t).accepts(j) {
        let i = choose|i: int|
            0 <= i < alternatives.len() && (#[trigger] alternatives[i]).accepts(j);
        assert(alternatives[0] == SchemaModel::Null);
    }
    if encode(j, t) is Ok {
        if j is Null {
            assert(alternatives[0].accepts(j));
        } else {
            assert(alternatives[1].accepts(j));
        }
    }
}

/// The schema of a result accepts the objects whose only member is named
/// `ok` or `err` and holds what is read as the payload of that side.
proof fn lemma_result_schema(j: JsonModel, ok: Option<TypeModel>, err: Option<TypeModel>)
    requires
        j.well_formed(),
        single_member(j) is Some ==> (payload_schema_of(ok).accepts(single_member(j)->Some_0.1)
            <==> payload_reads(ok, single_member(j)->Some_0.1)),
        single_member(j) is Some ==> (payload_schema_of(err).accepts(single_member(j)->Some_0.1)
            <==> payload_reads(err, single_member(j)->Some_0.1)),
    ensures
        schema_of(result_type(ok, err)).accepts(j) <==> encode(j, result_type(ok, err)) is Ok,
{
    lemma_result_keys_differ();
    let t = result_type(ok, err);
    let alternatives = schema_of(t)->AnyOf_0;
    lemma_tagged_schema(ok_key(), payload_schema_of(ok), j);
    lemma_tagged_schema(err_key(), payload_schema_of(err), j);
    assert(alternatives[0] == tagged_schema(ok_key(), payload_schema_of(ok)));
    assert(alternatives[1] == tagged_schema(err_key(), payload_schema_of(err)));
    if schema_of(t).accepts(j) {
        let i = choose|i: int|
            0 <= i < alternatives.len() && (#[trigger] alternatives[i]).accepts(j);
    }
    if encode(j, t) is Ok {
        if single_member(j)->Some_0.0 == ok_key() {
            assert(alternatives[0].accepts(j));
        } else {
            assert(alternatives[1].accepts(j));
        }
    }
}

/// The result type with the given payload types.
spec fn result_type(ok: Option<TypeModel>, err: Option<TypeModel>) -> TypeModel {
    TypeModel::Result(
        match ok {
            Some(p) => Some(Box::new(p)),
            None => None,
        },
        match err {
            Some(p) => Some(Box::new(p)),
            None => None,
        },
    )
}

/// The value of the only member of a well-formed object is well formed.
proof fn lemma_single_member(j: JsonModel)
    requires
        j.well_formed(),
        single_member(j) is Some,
    ensures
        single_member(j)->Some_0.1.well_formed(),
{
    assert(j->Object_0[0].1.well_formed());
}

/// The schema of a type accepts exactly the JSON values that are read under
/// the type. This holds of every well-formed type and of every JSON value
/// in which no object has two members of one name.
pub proof fn schema_agrees(j: JsonModel, t: TypeModel)
    requires
        j.well_formed(),
        t.well_formed(),
    ensures
        schema_of(t).accepts(j) <==> encode(j, t) is Ok,
    decreases t,
{
    match t {
        TypeModel::Float32 => {
            lemma_float_schema(j, Kind::Float32);
        },
        TypeModel::Float64 => {
            lemma_float_schema(j, Kind::Float64);
        },
        TypeModel::List(item) => {
            if j is Array {
                let items = j->Array_0;
                assert forall|i: int| 0 <= i < items.len() implies (schema_of(*item).accepts(
                    #[trigger] items[i],
                ) <==> encode(items[i], *item) is Ok) by {
                    schema_agrees(items[i], *item);
                }
                lemma_list_schema(items, *item);
            }
        },
        TypeModel::Record(fields) => {
            if j is Object {
                let members = j->Object_0;
                assert forall|i: int| 0 <= i < fields.len() implies (field_accepted(
                    members,
                    #[trigger] fields[i],
                ) <==> !field_fails(members, fields[i])) by {
                    lemma_lookup_from(members, fields[i].0, 0);
                    match lookup(members, fields[i].0) {
                        Some(x) => {
                            schema_agrees(x, fields[i].1);
                        },
                        None => {},
                    }
                }
                lemma_record_schema(members, fields);
            }
        },
        TypeModel::Tuple(types) => {
            if j is Array && j->Array_0.len() == types.len() {
                let items = j->Array_0;
                assert forall|i: int| 0 <= i < types.len() implies (schema_of(
                    #[trigger] types[i],
                ).accepts(items[i]) <==> encode(items[i], types[i]) is Ok) by {
                    schema_agrees(items[i], types[i]);
                }
                lemma_tuple_schema(items, types);
            }
        },
        TypeModel::Variant(cases) => {
            if single_member(j) is Some {
                let x = single_member(j)->Some_0.1;
                lemma_single_member(j);
                assert forall|i: int| 0 <= i < cases.len() implies (payload_schema_of(
                    (#[trigger] cases[i]).1,
                ).accepts(x) <==> payload_reads(cases[i].1, x)) by {
                    match cases[i].1 {
                        Some(p) => {
                            schema_agrees(x, p);
                        },
                        None => {},
                    }
                }
            }
            lemma_variant_schema(j, cases);
        },
        TypeModel::Option(item) => {
            if single_member(j) is Some {
                lemma_single_member(j);
                schema_agrees(single_member(j)->Some_0.1, *item);
            }
            lemma_option_schema(j, *item);
        },
        TypeModel::Result(ok, err) => {
            let ok_type = match ok {
                Some(p) => Some(*p),
                None => None,
            };
            let err_type = match err {
                Some(p) => Some(*p),
                None => None,
            };
            if single_member(j) is Some {
                let x = single_member(j)->Some_0.1;
                lemma_single_member(j);
                match ok {
                    Some(p) => {
                        schema_agrees(x, *p);
                    },
                    None => {},
                }
                match err {
                    Some(p) => {
                        schema_agrees(x, *p);
                    },
                    None => {},
                }
            }
            assert(t == result_type(ok_type, err_type));
            lemma_result_schema(j, ok_type, err_type);
        },
        TypeModel::Flags(names) => {
            if j is Array {
                lemma_flags_schema(j->Array_0, names);
            }
        },
        _ => {},
    }
}

/// What a value of a well-formed type is written as is a JSON value in
/// which no object has two members of one name.
pub proof fn decode_is_well_formed(v: ValueModel, t: TypeModel)
    requires
        t.well_formed(),
        valid(v, t),
    ensures
        decode(v).well_formed(),
    decreases t,
{
    match t {
        TypeModel::List(item) => {
            let values = v->List_0;
            let items = decode(v)->Array_0;
            assert forall|i: int| 0 <= i < items.len() implies (#[trigger] items[i]).well_formed() by {
                decode_is_well_formed(values[i], *item);
            }
        },
        TypeModel::Record(fields) => {
            let values = v->Record_0;
            let members = decode(v)->Object_0;
            assert forall|i: int| 0 <= i < members.len() implies (
            #[trigger] members[i]).1.well_formed() by {
                assert(values[i].0 == fields[i].0);
                decode_is_well_formed(values[i].1, fields[i].1);
            }
            assert forall|i: int, k: int| 0 <= i < k < members.len() implies (
            #[trigger] members[i]).0 != (#[trigger] members[k]).0 by {
                assert(values[i].0 == fields[i].0);
                assert(values[k].0 == fields[k].0);
                assert(field_names(fields)[i] != field_names(fields)[k]);
            }
        },
        TypeModel::Tuple(types) => {
            let values = v->Tuple_0;
            let items = decode(v)->Array_0;
            assert forall|i: int| 0 <= i < items.len() implies (#[trigger] items[i]).well_formed() by {
                decode_is_well_formed(values[i], types[i]);
            }
        },
        TypeModel::Variant(cases) => {
            let payload = v->Variant_1;
            let i = find_case(cases, v->Variant_0, 0)->Some_0;
            match cases[i].1 {
                Some(p) => {
                    decode_is_well_formed(*payload->Some_0, p);
                },
                None => {},
            }
            assert(decode(v)->Object_0[0].1.well_formed());
        },
        TypeModel::Option(item) => {
            match v->Option_0 {
                Some(p) => {
                    decode_is_well_formed(*p, *item);
                    assert(decode(v)->Object_0[0].1.well_formed());
                },
                None => {},
            }
        },
        TypeModel::Result(ok, err) => {
            match v->Result_0 {
                Ok(payload) => match ok {
                    Some(p) => {
                        decode_is_well_formed(*payload->Some_0, *p);
                    },
                    None => {},
                },
                Err(payload) => match err {
                    Some(p) => {
                        decode_is_well_formed(*payload->Some_0, *p);
                    },
                    None => {},
                },
            }
            assert(decode(v)->Object_0[0].1.well_formed());
        },
        TypeModel::Flags(names) => {
            let items = decode(v)->Array_0;
            assert forall|i: int| 0 <= i < items.len() implies (#[trigger] items[i]).well_formed() by {}
        },
        _ => {},
    }
}

/// The schema of a type accepts what every value of the type is written as:
/// whoever holds the schema alone can read the answer.
pub proof fn decode_is_accepted(v: ValueModel, t: TypeModel)
    requires
        t.well_formed(),
        valid(v, t),
    ensures
        schema_of(t).accepts(decode(v)),
{
    round_trip(v, t);
    decode_is_well_formed(v, t);
    schema_agrees(decode(v), t);
}

/// The arguments of a call are read from a body where its fields would be
/// read from an object, and fail where they would.
proof fn lemma_arguments_like_fields(
    params: Seq<(Seq<char>, TypeModel)>,
    body: Seq<(Seq<char>, JsonModel)>,
    from: int,
)
    requires
        0 <= from <= params.len(),
    ensures
        arguments_of(params, body, from) is Ok <==> encode_fields(body, params, from) is Ok,
    decreases params.len() - from,
{
    if from < params.len() {
        lemma_arguments_like_fields(params, body, from + 1);
    }
}

/// The schema of a request body accepts exactly the bodies from which the
/// arguments of the call are read. This holds where the types of the
/// parameters are well formed and no object in the body has two members of
/// one name.
pub proof fn body_schema_agrees(
    params: Seq<(Seq<char>, TypeModel)>,
    body: Seq<(Seq<char>, JsonModel)>,
)
    requires
        forall|i: int| 0 <= i < params.len() ==> (#[trigger] params[i]).1.well_formed(),
        JsonModel::Object(body).well_formed(),
    ensures
        object_schema_of(params).accepts(JsonModel::Object(body)) <==> arguments_of(
            params,
            body,
            0,
        ) is Ok,
{
    assert forall|i: int| 0 <= i < params.len() implies (field_accepted(
        body,
        #[trigger] params[i],
    ) <==> !field_fails(body, params[i])) by {
        lemma_lookup_from(body, params[i].0, 0);
        match lookup(body, params[i].0) {
            Some(x) => {
                let k = choose|k: int|
                    0 <= k < body.len() && #[trigger] body[k] == (params[i].0, x);
                let j = JsonModel::Object(body);
                assert(j->Object_0 == body);
                assert(j->Object_0[k].1.well_formed());
                schema_agrees(x, params[i].1);
            },
            None => {},
        }
    }
    lemma_record_schema(body, params);
    lemma_arguments_like_fields(params, body, 0);
}

} // verus!
