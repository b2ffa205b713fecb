//! The schema mapper: the JSON shape that a type stands for, as a schema.
//!
//! A schema node says which JSON values it accepts, in the terms of JSON
//! Schema: a type with bounds, a choice of strings, an array, a tuple, an
//! object with required properties, or any of several alternatives. The
//! schema of a type accepts exactly the JSON values that the codec reads
//! under that type, and [`SchemaNode::accepts`] decides whether a schema
//! accepts a value.

use vstd::prelude::*;
use crate::codec::{
    as_int, err_key, infinity_text, nan_text, neg_infinity_text, ok_key, some_key,
};
use crate::encode::contains_name;
use crate::json::{
    get, items_model, lemma_array_model, lemma_object_model, lookup, members_model, JsonModel,
    JsonValue, Number,
};
use crate::types::{
    clone_names, fields_model, lemma_record_model, lemma_tuple_model, lemma_variant_model,
    names_model, payload_model, TypeDescriptor, TypeModel,
};

verus! {

/// A schema: a description of the JSON values that are accepted in a place.
#[derive(Debug, PartialEq, Eq)]
pub enum SchemaNode {
    /// Only `null`.
    Null,
    /// `true` or `false`.
    Boolean,
    /// An integer from `minimum` to `maximum`, both included.
    Integer { minimum: i128, maximum: i128 },
    /// Any number.
    Number,
    /// A string of at least `min_length` characters and, where `max_length`
    /// is given, at most that many.
    String { min_length: u64, max_length: Option<u64> },
    /// A string that is one of those listed.
    Choice(Vec<String>),
    /// An array of any length whose items are all accepted by one schema.
    Array(Box<SchemaNode>),
    /// An array with one item for each schema, accepted by the schema at its
    /// own position.
    Tuple(Vec<SchemaNode>),
    /// An object. Every property listed is required, and its value is
    /// accepted by the property's schema. Where the object is closed, it has
    /// no member beside the properties.
    Object { properties: Vec<(String, SchemaNode)>, closed: bool },
    /// A value that at least one of the alternatives accepts.
    AnyOf(Vec<SchemaNode>),
}

/// The mathematical value of a [`SchemaNode`].
pub enum SchemaModel {
    Null,
    Boolean,
    Integer { minimum: int, maximum: int },
    Number,
    String { min_length: nat, max_length: Option<nat> },
    Choice(Seq<Seq<char>>),
    Array(Box<SchemaModel>),
    Tuple(Seq<SchemaModel>),
    Object { properties: Seq<(Seq<char>, SchemaModel)>, closed: bool },
    AnyOf(Seq<SchemaModel>),
}

impl SchemaNode {
    /// The mathematical value, part by part.
    pub open spec fn model(self) -> SchemaModel
        decreases self,
    {
        match self {
            SchemaNode::Null => SchemaModel::Null,
            SchemaNode::Boolean => SchemaModel::Boolean,
            SchemaNode::Integer { minimum, maximum } => SchemaModel::Integer {
                minimum: minimum as int,
                maximum: maximum as int,
            },
            SchemaNode::Number => SchemaModel::Number,
            SchemaNode::String { min_length, max_length } => SchemaModel::String {
                min_length: min_length as nat,
                max_length: match max_length {
                    Some(n) => Some(n as nat),
                    None => None,
                },
            },
            SchemaNode::Choice(names) => SchemaModel::Choice(names_model(names@)),
            SchemaNode::Array(items) => SchemaModel::Array(Box::new((*items).model())),
            SchemaNode::Tuple(items) => SchemaModel::Tuple(
                Seq::new(
                    items.len() as nat,
                    |i: int|
                        if 0 <= i < items.len() {
                            items[i].model()
                        } else {
                            arbitrary()
                        },
                ),
            ),
            SchemaNode::Object { properties, closed } => SchemaModel::Object {
                properties: Seq::new(
                    properties.len() as nat,
                    |i: int|
                        if 0 <= i < properties.len() {
                            (properties[i].0@, properties[i].1.model())
                        } else {
                            arbitrary()
                        },
                ),
                closed,
            },
            SchemaNode::AnyOf(alternatives) => SchemaModel::AnyOf(
                Seq::new(
                    alternatives.len() as nat,
                    |i: int|
                        if 0 <= i < alternatives.len() {
                            alternatives[i].model()
                        } else {
                            arbitrary()
                        },
                ),
            ),
        }
    }
}

impl View for SchemaNode {
    type V = SchemaModel;

    open spec fn view(&self) -> SchemaModel {
        self.model()
    }
}

/// The models of a list of schemas.
pub open spec fn nodes_model(nodes: Seq<SchemaNode>) -> Seq<SchemaModel> {
    Seq::new(nodes.len(), |i: int| nodes[i]@)
}

/// The names and schemas of a list of properties.
pub open spec fn properties_model(properties: Seq<(String, SchemaNode)>) -> Seq<
    (Seq<char>, SchemaModel),
> {
    Seq::new(properties.len(), |i: int| (properties[i].0@, properties[i].1@))
}

/// The model of a tuple or of alternatives is the model of the schemas listed.
pub proof fn lemma_nodes_model(nodes: Vec<SchemaNode>)
    ensures
        SchemaNode::Tuple(nodes)@ == SchemaModel::Tuple(nodes_model(nodes@)),
        SchemaNode::AnyOf(nodes)@ == SchemaModel::AnyOf(nodes_model(nodes@)),
{
    assert(SchemaNode::Tuple(nodes)@->Tuple_0 =~= nodes_model(nodes@));
    assert(SchemaNode::AnyOf(nodes)@->AnyOf_0 =~= nodes_model(nodes@));
}

/// The model of an object is the model of its properties.
pub proof fn lemma_properties_model(properties: Vec<(String, SchemaNode)>, closed: bool)
    ensures
        (SchemaNode::Object { properties, closed })@ == (SchemaModel::Object {
            properties: properties_model(properties@),
            closed,
        }),
{
    assert((SchemaNode::Object { properties, closed })@->Object_properties =~= properties_model(
        properties@,
    ));
}

/// Whether a member's name is the name of one of the properties.
pub open spec fn names_property(properties: Seq<(Seq<char>, SchemaModel)>, name: Seq<char>) -> bool {
    exists|i: int| 0 <= i < properties.len() && (#[trigger] properties[i]).0 == name
}

impl SchemaModel {
    /// Whether the schema accepts a JSON value.
    pub open spec fn accepts(self, j: JsonModel) -> bool
        decreases self,
    {
        match self {
            SchemaModel::Null => j is Null,
            SchemaModel::Boolean => j is Bool,
            SchemaModel::Integer { minimum, maximum } => match as_int(j) {
                Some(n) => minimum <= n <= maximum,
                None => false,
            },
            SchemaModel::Number => j is Number,
            SchemaModel::String { min_length, max_length } => match j {
                JsonModel::String(s) => min_length <= s.len() && match max_length {
                    Some(n) => s.len() <= n,
                    None => true,
                },
                _ => false,
            },
            SchemaModel::Choice(names) => match j {
                JsonModel::String(s) => names.contains(s),
                _ => false,
            },
            SchemaModel::Array(items) => match j {
                JsonModel::Array(values) => {
                    forall|i: int| 0 <= i < values.len() ==> (*items).accepts(#[trigger] values[i])
                },
                _ => false,
            },
            SchemaModel::Tuple(items) => match j {
                JsonModel::Array(values) => {
                    &&& values.len() == items.len()
                    &&& forall|i: int|
                        0 <= i < items.len() ==> (#[trigger] items[i]).accepts(values[i])
                },
                _ => false,
            },
            SchemaModel::Object { properties, closed } => match j {
                JsonModel::Object(members) => {
                    &&& forall|i: int|
                        0 <= i < properties.len() ==> match lookup(
                            members,
                            (#[trigger] properties[i]).0,
                        ) {
                            Some(x) => properties[i].1.accepts(x),
                            None => false,
                        }
                    &&& closed ==> forall|k: int|
                        0 <= k < members.len() ==> names_property(
                            properties,
                            (#[trigger] members[k]).0,
                        )
                },
                _ => false,
            },
            SchemaModel::AnyOf(alternatives) => exists|i: int|
                0 <= i < alternatives.len() && (#[trigger] alternatives[i]).accepts(j),
        }
    }
}

/// The schema of an integer type with the given bounds.
pub open spec fn integer_schema(minimum: int, maximum: int) -> SchemaModel {
    SchemaModel::Integer { minimum, maximum }
}

/// The schema of a floating-point type: a number, or one of the three names
/// of what no number expresses.
pub open spec fn float_schema() -> SchemaModel {
    SchemaModel::AnyOf(
        seq![
            SchemaModel::Number,
            SchemaModel::Choice(seq![nan_text(), infinity_text(), neg_infinity_text()]),
        ],
    )
}

/// The closed object with the one property `key`.
pub open spec fn tagged_schema(key: Seq<char>, payload: SchemaModel) -> SchemaModel {
    SchemaModel::Object { properties: seq![(key, payload)], closed: true }
}

/// The schema of a type.
pub open spec fn schema_of(t: TypeModel) -> SchemaModel
    decreases t,
{
    match t {
        TypeModel::Bool => SchemaModel::Boolean,
        TypeModel::U8 => integer_schema(0, u8::MAX as int),
        TypeModel::U16 => integer_schema(0, u16::MAX as int),
        TypeModel::U32 => integer_schema(0, u32::MAX as int),
        TypeModel::U64 => integer_schema(0, u64::MAX as int),
        TypeModel::S8 => integer_schema(i8::MIN as int, i8::MAX as int),
        TypeModel::S16 => integer_schema(i16::MIN as int, i16::MAX as int),
        TypeModel::S32 => integer_schema(i32::MIN as int, i32::MAX as int),
        TypeModel::S64 => integer_schema(i64::MIN as int, i64::MAX as int),
        TypeModel::Float32 => float_schema(),
        TypeModel::Float64 => float_schema(),
        TypeModel::Char => SchemaModel::String { min_length: 1, max_length: Some(1nat) },
        TypeModel::String => SchemaModel::String { min_length: 0, max_length: None },
        TypeModel::List(item) => SchemaModel::Array(Box::new(schema_of(*item))),
        TypeModel::Record(fields) => object_schema_of(fields),
        TypeModel::Tuple(types) => SchemaModel::Tuple(
            Seq::new(
                types.len(),
                |i: int|
                    if 0 <= i < types.len() {
                        schema_of(types[i])
                    } else {
                        arbitrary()
                    },
            ),
        ),
        TypeModel::Variant(cases) => SchemaModel::AnyOf(
            Seq::new(
                cases.len(),
                |i: int|
                    if 0 <= i < cases.len() {
                        tagged_schema(
                            cases[i].0,
                            match cases[i].1 {
                                Some(p) => schema_of(p),
                                None => SchemaModel::Null,
                            },
                        )
                    } else {
                        arbitrary()
                    },
            ),
        ),
        TypeModel::Enum(names) => SchemaModel::Choice(names),
        TypeModel::Option(item) => SchemaModel::AnyOf(
            seq![SchemaModel::Null, tagged_schema(some_key(), schema_of(*item))],
        ),
        TypeModel::Result(ok, err) => SchemaModel::AnyOf(
            seq![
                tagged_schema(
                    ok_key(),
                    match ok {
                        Some(p) => schema_of(*p),
                        None => SchemaModel::Null,
                    },
                ),
                tagged_schema(
                    err_key(),
                    match err {
                        Some(p) => schema_of(*p),
                        None => SchemaModel::Null,
                    },
                ),
            ],
        ),
        TypeModel::Flags(names) => SchemaModel::Array(Box::new(SchemaModel::Choice(names))),
        TypeModel::Resource(_) => integer_schema(0, u32::MAX as int),
    }
}

/// The schema of an object that has one required property for each of the
/// named types, under its name and with the schema of its type, and that may
/// have other members.
pub open spec fn object_schema_of(fields: Seq<(Seq<char>, TypeModel)>) -> SchemaModel
    decreases fields,
{
    SchemaModel::Object {
        properties: Seq::new(
            fields.len(),
            |i: int|
                if 0 <= i < fields.len() {
                    (fields[i].0, schema_of(fields[i].1))
                } else {
                    arbitrary()
                },
        ),
        closed: false,
    }
}

/// The closed object with the one property `key`.
fn tagged(key: String, payload: SchemaNode) -> (s: SchemaNode)
    ensures
        s@ == tagged_schema(key@, payload@),
{
    let ghost expected = seq![(key@, payload@)];
    let mut properties: Vec<(String, SchemaNode)> = Vec::new();
    properties.push((key, payload));
    proof {
        lemma_properties_model(properties, true);
        assert(properties_model(properties@) =~= expected);
    }
    SchemaNode::Object { properties, closed: true }
}

/// The schema of a floating-point type.
fn float_node() -> (s: SchemaNode)
    ensures
        s@ == float_schema(),
{
    let mut names: Vec<String> = Vec::new();
    names.push(String::from_str("NaN"));
    names.push(String::from_str("Infinity"));
    names.push(String::from_str("-Infinity"));
    assert(names_model(names@) =~= seq![nan_text(), infinity_text(), neg_infinity_text()]);
    let mut alternatives: Vec<SchemaNode> = Vec::new();
    alternatives.push(SchemaNode::Number);
    alternatives.push(SchemaNode::Choice(names));
    proof {
        lemma_nodes_model(alternatives);
        assert(nodes_model(alternatives@) =~= float_schema()->AnyOf_0);
    }
    SchemaNode::AnyOf(alternatives)
}

/// The schema of the payload of a case, of success or of failure.
fn payload_schema(payload: &Option<TypeDescriptor>) -> (s: SchemaNode)
    ensures
        s@ == (match payload_model(*payload) {
            Some(p) => schema_of(p),
            None => SchemaModel::Null,
        }),
    decreases payload,
{
    match payload {
        Some(p) => p.into_schema(),
        None => SchemaNode::Null,
    }
}

/// The schema of a boxed payload that may be absent.
fn boxed_payload_schema(payload: &Option<Box<TypeDescriptor>>) -> (s: SchemaNode)
    ensures
        s@ == (match *payload {
            Some(p) => schema_of((*p)@),
            None => SchemaModel::Null,
        }),
    decreases payload,
{
    match payload {
        Some(p) => p.into_schema(),
        None => SchemaNode::Null,
    }
}

/// The schemas of a list of types, one for one.
fn schemas_of(types: &Vec<TypeDescriptor>) -> (out: Vec<SchemaNode>)
    ensures
        out.len() == types.len(),
        forall|i: int| 0 <= i < types.len() ==> (#[trigger] out[i])@ == schema_of(types[i]@),
    decreases types,
{
    let mut out: Vec<SchemaNode> = Vec::new();
    let mut i: usize = 0;
    while i < types.len()
        invariant
            i <= types.len(),
            out.len() == i,
            forall|k: int| 0 <= k < i ==> (#[trigger] out[k])@ == schema_of(types[k]@),
        decreases types.len() - i,
    {
        let s = types[i].into_schema();
        out.push(s);
        i += 1;
    }
    out
}

/// The alternatives of a variant: one closed object for each case.
fn case_schemas(cases: &Vec<(String, Option<TypeDescriptor>)>) -> (out: Vec<SchemaNode>)
    ensures
        out.len() == cases.len(),
        forall|i: int|
            0 <= i < cases.len() ==> (#[trigger] out[i])@ == tagged_schema(
                cases[i].0@,
                match payload_model(cases[i].1) {
                    Some(p) => schema_of(p),
                    None => SchemaModel::Null,
                },
            ),
    decreases cases,
{
    let mut out: Vec<SchemaNode> = Vec::new();
    let mut i: usize = 0;
    while i < cases.len()
        invariant
            i <= cases.len(),
            out.len() == i,
            forall|k: int|
                0 <= k < i ==> (#[trigger] out[k])@ == tagged_schema(
                    cases[k].0@,
                    match payload_model(cases[k].1) {
                        Some(p) => schema_of(p),
                        None => SchemaModel::Null,
                    },
                ),
        decreases cases.len() - i,
    {
        let payload = payload_schema(&cases[i].1);
        out.push(tagged(cases[i].0.clone(), payload));
        i += 1;
    }
    out
}

/// The schema of an object that has one required property for each of the
/// named types, under its name and with the schema of its type.
pub fn object_schema(fields: &Vec<(String, TypeDescriptor)>) -> (s: SchemaNode)
    ensures
        s@ == object_schema_of(fields_model(fields@)),
    decreases fields,
{
    let mut properties: Vec<(String, SchemaNode)> = Vec::new();
    let mut i: usize = 0;
    while i < fields.len()
        invariant
            i <= fields.len(),
            properties.len() == i,
            forall|k: int|
                0 <= k < i ==> {
                    &&& (#[trigger] properties[k]).0@ == fields[k].0@
                    &&& properties[k].1@ == schema_of(fields[k].1@)
                },
        decreases fields.len() - i,
    {
        let s = fields[i].1.into_schema();
        properties.push((fields[i].0.clone(), s));
        i += 1;
    }
    proof {
        lemma_properties_model(properties, false);
        assert(properties_model(properties@) =~= object_schema_of(
            fields_model(fields@),
        )->Object_properties);
    }
    SchemaNode::Object { properties, closed: false }
}

impl TypeDescriptor {
    /// The schema of the type. Every type has one: a scalar maps to the JSON
    /// primitive with the bounds of its range, and a composite type maps to
    /// the composition of the schemas of its parts.
    pub fn into_schema(&self) -> (s: SchemaNode)
        ensures
            s@ == schema_of(self@),
        decreases self,
    {
        match self {
            TypeDescriptor::Bool => SchemaNode::Boolean,
            TypeDescriptor::U8 => SchemaNode::Integer { minimum: 0, maximum: 0xff },
            TypeDescriptor::U16 => SchemaNode::Integer { minimum: 0, maximum: 0xffff },
            TypeDescriptor::U32 => SchemaNode::Integer { minimum: 0, maximum: 0xffff_ffff },
            TypeDescriptor::U64 => SchemaNode::Integer {
                minimum: 0,
                maximum: 0xffff_ffff_ffff_ffff,
            },
            TypeDescriptor::S8 => SchemaNode::Integer { minimum: -0x80, maximum: 0x7f },
            TypeDescriptor::S16 => SchemaNode::Integer { minimum: -0x8000, maximum: 0x7fff },
            TypeDescriptor::S32 => SchemaNode::Integer {
                minimum: -0x8000_0000,
                maximum: 0x7fff_ffff,
            },
            TypeDescriptor::S64 => SchemaNode::Integer {
                minimum: -0x8000_0000_0000_0000,
                maximum: 0x7fff_ffff_ffff_ffff,
            },
            TypeDescriptor::Float32 => float_node(),
            TypeDescriptor::Float64 => float_node(),
            TypeDescriptor::Char => SchemaNode::String { min_length: 1, max_length: Some(1) },
            TypeDescriptor::String => SchemaNode::String { min_length: 0, max_length: None },
            TypeDescriptor::List(item) => SchemaNode::Array(Box::new(item.into_schema())),
            TypeDescriptor::Record(fields) => {
                proof {
                    lemma_record_model(*fields);
                }
                object_schema(fields)
            },
            TypeDescriptor::Tuple(types) => {
                let out = schemas_of(types);
                proof {
                    lemma_tuple_model(*types);
                    lemma_nodes_model(out);
                    assert(nodes_model(out@) =~= schema_of(self@)->Tuple_0);
                }
                SchemaNode::Tuple(out)
            },
            TypeDescriptor::Variant(cases) => {
                let out = case_schemas(cases);
                proof {
                    lemma_variant_model(*cases);
                    lemma_nodes_model(out);
                    assert(nodes_model(out@) =~= schema_of(self@)->AnyOf_0);
                }
                SchemaNode::AnyOf(out)
            },
            TypeDescriptor::Enum(names) => SchemaNode::Choice(clone_names(names)),
            TypeDescriptor::Option(item) => {
                let some = tagged(String::from_str("some"), item.into_schema());
                let mut alternatives: Vec<SchemaNode> = Vec::new();
                alternatives.push(SchemaNode::Null);
                alternatives.push(some);
                proof {
                    lemma_nodes_model(alternatives);
                    assert(nodes_model(alternatives@) =~= schema_of(self@)->AnyOf_0);
                }
                SchemaNode::AnyOf(alternatives)
            },
            TypeDescriptor::Result(ok, err) => {
                let on_ok = tagged(String::from_str("ok"), boxed_payload_schema(ok));
                let on_err = tagged(String::from_str("err"), boxed_payload_schema(err));
                let mut alternatives: Vec<SchemaNode> = Vec::new();
                alternatives.push(on_ok);
                alternatives.push(on_err);
                proof {
                    lemma_nodes_model(alternatives);
                    assert(nodes_model(alternatives@) =~= schema_of(self@)->AnyOf_0);
                }
                SchemaNode::AnyOf(alternatives)
            },
            TypeDescriptor::Flags(names) => {
                let choice = SchemaNode::Choice(clone_names(names));
                assert(choice@ == SchemaModel::Choice(names_model(names@)));
                SchemaNode::Array(Box::new(choice))
            },
            TypeDescriptor::Resource(_) => SchemaNode::Integer { minimum: 0, maximum: 0xffff_ffff },
        }
    }
}

} // verus!

verus! {

/// A copy of a list of schemas.
fn clone_nodes(nodes: &Vec<SchemaNode>) -> (out: Vec<SchemaNode>)
    ensures
        nodes_model(out@) == nodes_model(nodes@),
    decreases nodes,
{
    let mut out: Vec<SchemaNode> = Vec::new();
    let mut i: usize = 0;
    while i < nodes.len()
        invariant
            i <= nodes.len(),
            out.len() == i,
            forall|k: int| 0 <= k < i ==> (#[trigger] out[k])@ == nodes[k]@,
        decreases nodes.len() - i,
    {
        let node = nodes[i].clone();
        out.push(node);
        i += 1;
    }
    assert(nodes_model(out@) =~= nodes_model(nodes@));
    out
}

/// A copy of a list of properties.
fn clone_properties(properties: &Vec<(String, SchemaNode)>) -> (out: Vec<(String, SchemaNode)>)
    ensures
        properties_model(out@) == properties_model(properties@),
    decreases properties,
{
    let mut out: Vec<(String, SchemaNode)> = Vec::new();
    let mut i: usize = 0;
    while i < properties.len()
        invariant
            i <= properties.len(),
            out.len() == i,
            forall|k: int|
                0 <= k < i ==> (#[trigger] out[k]).0@ == properties[k].0@ && out[k].1@
                    == properties[k].1@,
        decreases properties.len() - i,
    {
        let node = properties[i].1.clone();
        out.push((properties[i].0.clone(), node));
        i += 1;
    }
    assert(properties_model(out@) =~= properties_model(properties@));
    out
}

impl Clone for SchemaNode {
    /// A copy that denotes the same schema.
    fn clone(&self) -> (r: Self)
        ensures
            r@ == self@,
        decreases self,
    {
        match self {
            SchemaNode::Null => SchemaNode::Null,
            SchemaNode::Boolean => SchemaNode::Boolean,
            SchemaNode::Integer { minimum, maximum } => SchemaNode::Integer {
                minimum: *minimum,
                maximum: *maximum,
            },
            SchemaNode::Number => SchemaNode::Number,
            SchemaNode::String { min_length, max_length } => SchemaNode::String {
                min_length: *min_length,
                max_length: *max_length,
            },
            SchemaNode::Choice(names) => SchemaNode::Choice(clone_names(names)),
            SchemaNode::Array(items) => SchemaNode::Array(Box::new((&**items).clone())),
            SchemaNode::Tuple(items) => {
                let out = clone_nodes(items);
                proof {
                    lemma_nodes_model(out);
                    lemma_nodes_model(*items);
                }
                SchemaNode::Tuple(out)
            },
            SchemaNode::Object { properties, closed } => {
                let out = clone_properties(properties);
                proof {
                    lemma_properties_model(out, *closed);
                    lemma_properties_model(*properties, *closed);
                }
                SchemaNode::Object { properties: out, closed: *closed }
            },
            SchemaNode::AnyOf(alternatives) => {
                let out = clone_nodes(alternatives);
                proof {
                    lemma_nodes_model(out);
                    lemma_nodes_model(*alternatives);
                }
                SchemaNode::AnyOf(out)
            },
        }
    }
}

/// Whether one schema accepts every one of the values.
fn all_accepted(item: &SchemaNode, values: &Vec<JsonValue>) -> (ok: bool)
    ensures
        ok == (forall|i: int|
            0 <= i < values.len() ==> item@.accepts(#[trigger] items_model(values@)[i])),
    decreases item, 1int,
{
    let mut i: usize = 0;
    while i < values.len()
        invariant
            i <= values.len(),
            forall|k: int| 0 <= k < i ==> item@.accepts(#[trigger] items_model(values@)[k]),
        decreases values.len() - i,
    {
        if !item.accepts(&values[i]) {
            assert(!item@.accepts(items_model(values@)[i as int]));
            return false;
        }
        i += 1;
    }
    true
}

/// Whether each schema accepts the value at its own position.
fn each_accepted(items: &Vec<SchemaNode>, values: &Vec<JsonValue>) -> (ok: bool)
    requires
        values.len() == items.len(),
    ensures
        ok == (forall|i: int|
            0 <= i < items.len() ==> (#[trigger] nodes_model(items@)[i]).accepts(
                items_model(values@)[i],
            )),
    decreases items, 1int,
{
    let mut i: usize = 0;
    while i < items.len()
        invariant
            i <= items.len(),
            values.len() == items.len(),
            forall|k: int|
                0 <= k < i ==> (#[trigger] nodes_model(items@)[k]).accepts(
                    items_model(values@)[k],
                ),
        decreases items.len() - i,
    {
        if !items[i].accepts(&values[i]) {
            assert(!nodes_model(items@)[i as int].accepts(items_model(values@)[i as int]));
            return false;
        }
        i += 1;
    }
    true
}

/// Whether every property has a member, with a value that its schema
/// accepts.
fn properties_accepted(
    properties: &Vec<(String, SchemaNode)>,
    members: &Vec<(String, JsonValue)>,
) -> (ok: bool)
    ensures
        ok == (forall|i: int|
            0 <= i < properties.len() ==> match lookup(
                members_model(members@),
                (#[trigger] properties_model(properties@)[i]).0,
            ) {
                Some(x) => properties_model(properties@)[i].1.accepts(x),
                None => false,
            }),
    decreases properties, 1int,
{
    let ghost pm = properties_model(properties@);
    let ghost mm = members_model(members@);
    let mut i: usize = 0;
    while i < properties.len()
        invariant
            i <= properties.len(),
            pm == properties_model(properties@),
            mm == members_model(members@),
            forall|k: int|
                0 <= k < i ==> match lookup(mm, (#[trigger] pm[k]).0) {
                    Some(x) => pm[k].1.accepts(x),
                    None => false,
                },
        decreases properties.len() - i,
    {
        let accepted = match get(members, &properties[i].0) {
            Some(x) => properties[i].1.accepts(x),
            None => false,
        };
        if !accepted {
            assert(!(match lookup(mm, pm[i as int].0) {
                Some(x) => pm[i as int].1.accepts(x),
                None => false,
            }));
            return false;
        }
        i += 1;
    }
    true
}

/// Whether a name is the name of one of the properties.
fn is_property(properties: &Vec<(String, SchemaNode)>, name: &String) -> (found: bool)
    ensures
        found == names_property(properties_model(properties@), name@),
{
    let ghost pm = properties_model(properties@);
    let mut i: usize = 0;
    while i < properties.len()
        invariant
            i <= properties.len(),
            pm == properties_model(properties@),
            forall|k: int| 0 <= k < i ==> (#[trigger] pm[k]).0 != name@,
        decreases properties.len() - i,
    {
        if properties[i].0 == *name {
            assert(pm[i as int].0 == name@);
            return true;
        }
        i += 1;
    }
    false
}

/// Whether every member has the name of one of the properties.
fn only_properties(properties: &Vec<(String, SchemaNode)>, members: &Vec<(String, JsonValue)>) -> (ok:
    bool)
    ensures
        ok == (forall|k: int|
            0 <= k < members.len() ==> names_property(
                properties_model(properties@),
                (#[trigger] members_model(members@)[k]).0,
            )),
{
    let ghost pm = properties_model(properties@);
    let ghost mm = members_model(members@);
    let mut i: usize = 0;
    while i < members.len()
        invariant
            i <= members.len(),
            pm == properties_model(properties@),
            mm == members_model(members@),
            forall|k: int| 0 <= k < i ==> names_property(pm, (#[trigger] mm[k]).0),
        decreases members.len() - i,
    {
        if !is_property(properties, &members[i].0) {
            assert(!names_property(pm, mm[i as int].0));
            return false;
        }
        i += 1;
    }
    true
}

/// Whether one of the alternatives accepts the value.
fn any_accepts(alternatives: &Vec<SchemaNode>, value: &JsonValue) -> (ok: bool)
    ensures
        ok == (exists|i: int|
            0 <= i < alternatives.len() && (#[trigger] nodes_model(alternatives@)[i]).accepts(
                value@,
            )),
    decreases alternatives, 1int,
{
    let mut i: usize = 0;
    while i < alternatives.len()
        invariant
            i <= alternatives.len(),
            forall|k: int|
                0 <= k < i ==> !(#[trigger] nodes_model(alternatives@)[k]).accepts(value@),
        decreases alternatives.len() - i,
    {
        if alternatives[i].accepts(value) {
            assert(nodes_model(alternatives@)[i as int].accepts(value@));
            return true;
        }
        i += 1;
    }
    false
}

impl SchemaNode {
    /// Whether the schema accepts a JSON value.
    pub fn accepts(&self, value: &JsonValue) -> (ok: bool)
        ensures
            ok == self@.accepts(value@),
        decreases self, 0int,
    {
        match self {
            SchemaNode::Null => match value {
                JsonValue::Null => true,
                _ => false,
            },
            SchemaNode::Boolean => match value {
                JsonValue::Bool(_) => true,
                _ => false,
            },
            SchemaNode::Integer { minimum, maximum } => match value {
                JsonValue::Number(Number::PosInt(n)) => *minimum <= *n as i128 && *n as i128
                    <= *maximum,
                JsonValue::Number(Number::NegInt(n)) => *minimum <= *n as i128 && *n as i128
                    <= *maximum,
                _ => false,
            },
            SchemaNode::Number => match value {
                JsonValue::Number(_) => true,
                _ => false,
            },
            SchemaNode::String { min_length, max_length } => match value {
                JsonValue::String(s) => {
                    let length = s.as_str().unicode_len() as u64;
                    *min_length <= length && match max_length {
                        Some(n) => length <= *n,
                        None => true,
                    }
                },
                _ => false,
            },
            SchemaNode::Choice(names) => match value {
                JsonValue::String(s) => contains_name(names, s),
                _ => false,
            },
            SchemaNode::Array(items) => match value {
                JsonValue::Array(values) => {
                    proof {
                        lemma_array_model(*values);
                        assert(*self@->Array_0 == (**items)@);
                        assert(value@->Array_0 == items_model(values@));
                    }
                    all_accepted(items, values)
                },
                _ => false,
            },
            SchemaNode::Tuple(items) => match value {
                JsonValue::Array(values) => {
                    proof {
                        lemma_array_model(*values);
                        lemma_nodes_model(*items);
                        assert(value@->Array_0 == items_model(values@));
                    }
                    values.len() == items.len() && each_accepted(items, values)
                },
                _ => false,
            },
            SchemaNode::Object { properties, closed } => match value {
                JsonValue::Object(members) => {
                    proof {
                        lemma_object_model(*members);
                        lemma_properties_model(*properties, *closed);
                        assert(value@->Object_0 == members_model(members@));
                    }
                    properties_accepted(properties, members) && (!*closed || only_properties(
                        properties,
                        members,
                    ))
                },
                _ => false,
            },
            SchemaNode::AnyOf(alternatives) => {
                proof {
                    lemma_nodes_model(*alternatives);
                    assert(self@->AnyOf_0 == nodes_model(alternatives@));
                }
                any_accepts(alternatives, value)
            },
        }
    }
}

} // verus!
