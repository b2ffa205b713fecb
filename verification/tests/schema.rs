use wasm2openapi::endpoint::Endpoint;
use wasm2openapi::json::{JsonValue, Number};
use wasm2openapi::schema::{object_schema, SchemaNode};
use wasm2openapi::signature::{FunctionSignature, Results};
use wasm2openapi::types::TypeDescriptor;
use wasm2openapi::value::{FloatValue, Value};

fn name(s: &str) -> String {
    s.to_string()
}

fn tagged(key: &str, payload: SchemaNode) -> SchemaNode {
    SchemaNode::Object { properties: vec![(name(key), payload)], closed: true }
}

fn float_schema() -> SchemaNode {
    SchemaNode::AnyOf(vec![
        SchemaNode::Number,
        SchemaNode::Choice(vec![name("NaN"), name("Infinity"), name("-Infinity")]),
    ])
}

#[test]
fn unsigned_eight_bits_are_an_integer_from_0_to_255() {
    assert_eq!(
        TypeDescriptor::U8.into_schema(),
        SchemaNode::Integer { minimum: 0, maximum: 255 }
    );
}

#[test]
fn integers_have_the_bounds_of_their_range() {
    let cases: Vec<(TypeDescriptor, i128, i128)> = vec![
        (TypeDescriptor::U16, 0, 65535),
        (TypeDescriptor::U32, 0, 4294967295),
        (TypeDescriptor::U64, 0, 18446744073709551615),
        (TypeDescriptor::S8, -128, 127),
        (TypeDescriptor::S16, -32768, 32767),
        (TypeDescriptor::S32, -2147483648, 2147483647),
        (TypeDescriptor::S64, -9223372036854775808, 9223372036854775807),
        (TypeDescriptor::Resource(5), 0, 4294967295),
    ];
    for (ty, minimum, maximum) in cases {
        assert_eq!(ty.into_schema(), SchemaNode::Integer { minimum, maximum });
    }
}

#[test]
fn the_other_scalars_map_to_primitives() {
    assert_eq!(TypeDescriptor::Bool.into_schema(), SchemaNode::Boolean);
    assert_eq!(
        TypeDescriptor::String.into_schema(),
        SchemaNode::String { min_length: 0, max_length: None }
    );
    assert_eq!(
        TypeDescriptor::Char.into_schema(),
        SchemaNode::String { min_length: 1, max_length: Some(1) }
    );
    assert_eq!(TypeDescriptor::Float32.into_schema(), float_schema());
    assert_eq!(TypeDescriptor::Float64.into_schema(), float_schema());
}

#[test]
fn record_lists_every_field_and_nests_their_schemas() {
    let inner = TypeDescriptor::Record(vec![(name("x"), TypeDescriptor::S8)]);
    let ty = TypeDescriptor::Record(vec![
        (name("point"), inner),
        (name("tags"), TypeDescriptor::List(Box::new(TypeDescriptor::String))),
    ]);
    assert_eq!(
        ty.into_schema(),
        SchemaNode::Object {
            properties: vec![
                (
                    name("point"),
                    SchemaNode::Object {
                        properties: vec![(
                            name("x"),
                            SchemaNode::Integer { minimum: -128, maximum: 127 }
                        )],
                        closed: false,
                    }
                ),
                (
                    name("tags"),
                    SchemaNode::Array(Box::new(SchemaNode::String {
                        min_length: 0,
                        max_length: None
                    }))
                ),
            ],
            closed: false,
        }
    );
}

#[test]
fn tuple_has_one_schema_for_each_position() {
    let ty = TypeDescriptor::Tuple(vec![TypeDescriptor::Bool, TypeDescriptor::U8]);
    assert_eq!(
        ty.into_schema(),
        SchemaNode::Tuple(vec![
            SchemaNode::Boolean,
            SchemaNode::Integer { minimum: 0, maximum: 255 }
        ])
    );
    assert_eq!(TypeDescriptor::Tuple(vec![]).into_schema(), SchemaNode::Tuple(vec![]));
}

#[test]
fn variant_has_one_closed_object_for_each_case() {
    let ty = TypeDescriptor::Variant(vec![
        (name("circle"), Some(TypeDescriptor::U32)),
        (name("nothing"), None),
    ]);
    assert_eq!(
        ty.into_schema(),
        SchemaNode::AnyOf(vec![
            tagged("circle", SchemaNode::Integer { minimum: 0, maximum: 4294967295 }),
            tagged("nothing", SchemaNode::Null),
        ])
    );
}

#[test]
fn enum_and_flags_choose_among_their_names() {
    let names = vec![name("a"), name("b")];
    assert_eq!(
        TypeDescriptor::Enum(names.clone()).into_schema(),
        SchemaNode::Choice(names.clone())
    );
    assert_eq!(
        TypeDescriptor::Flags(names.clone()).into_schema(),
        SchemaNode::Array(Box::new(SchemaNode::Choice(names)))
    );
}

#[test]
fn option_is_null_or_some() {
    let ty = TypeDescriptor::Option(Box::new(TypeDescriptor::Bool));
    assert_eq!(
        ty.into_schema(),
        SchemaNode::AnyOf(vec![SchemaNode::Null, tagged("some", SchemaNode::Boolean)])
    );
}

#[test]
fn result_is_ok_or_err() {
    let ty = TypeDescriptor::Result(Some(Box::new(TypeDescriptor::Bool)), None);
    assert_eq!(
        ty.into_schema(),
        SchemaNode::AnyOf(vec![
            tagged("ok", SchemaNode::Boolean),
            tagged("err", SchemaNode::Null)
        ])
    );
}

#[test]
fn object_schema_of_no_fields_has_no_properties() {
    assert_eq!(
        object_schema(&vec![]),
        SchemaNode::Object { properties: vec![], closed: false }
    );
}

#[test]
fn a_copy_of_a_schema_equals_it() {
    let schema = TypeDescriptor::Record(vec![
        (name("a"), TypeDescriptor::Option(Box::new(TypeDescriptor::Float32))),
        (name("b"), TypeDescriptor::Tuple(vec![TypeDescriptor::Char])),
    ])
    .into_schema();
    assert_eq!(schema.clone(), schema);
}

fn string(s: &str) -> JsonValue {
    JsonValue::String(s.to_string())
}

fn whole(n: i64) -> JsonValue {
    JsonValue::Number(Number::from_i64(n))
}

fn members(list: Vec<(&str, JsonValue)>) -> JsonValue {
    JsonValue::Object(list.into_iter().map(|(k, v)| (k.to_string(), v)).collect())
}

/// Types of every kind, composed in several ways.
fn sample_types() -> Vec<TypeDescriptor> {
    let scalars = vec![
        TypeDescriptor::Bool,
        TypeDescriptor::U8,
        TypeDescriptor::U16,
        TypeDescriptor::U32,
        TypeDescriptor::U64,
        TypeDescriptor::S8,
        TypeDescriptor::S16,
        TypeDescriptor::S32,
        TypeDescriptor::S64,
        TypeDescriptor::Float32,
        TypeDescriptor::Float64,
        TypeDescriptor::Char,
        TypeDescriptor::String,
        TypeDescriptor::Resource(1),
    ];
    let mut types = scalars.clone();
    for scalar in scalars {
        types.push(TypeDescriptor::List(Box::new(scalar.clone())));
        types.push(TypeDescriptor::Option(Box::new(scalar.clone())));
        types.push(TypeDescriptor::Tuple(vec![scalar.clone(), TypeDescriptor::Bool]));
        types.push(TypeDescriptor::Record(vec![
            (name("a"), scalar.clone()),
            (name("b"), TypeDescriptor::Option(Box::new(scalar.clone()))),
        ]));
        types.push(TypeDescriptor::Variant(vec![
            (name("a"), Some(scalar.clone())),
            (name("b"), None),
        ]));
        types.push(TypeDescriptor::Result(Some(Box::new(scalar.clone())), None));
        types.push(TypeDescriptor::Result(None, Some(Box::new(scalar))));
    }
    types.push(TypeDescriptor::Enum(vec![name("a"), name("b")]));
    types.push(TypeDescriptor::Flags(vec![name("a"), name("b")]));
    types.push(TypeDescriptor::Tuple(vec![]));
    types.push(TypeDescriptor::Record(vec![]));
    types
}

/// JSON values of every shape, in which no object has one name twice.
fn sample_values() -> Vec<JsonValue> {
    let leaves = vec![
        JsonValue::Null,
        JsonValue::Bool(true),
        whole(0),
        whole(-1),
        whole(255),
        whole(256),
        whole(-129),
        whole(70000),
        whole(i64::MIN),
        JsonValue::Number(Number::PosInt(u64::MAX)),
        JsonValue::Number(Number::Float(3.5f64.to_bits())),
        string(""),
        string("a"),
        string("b"),
        string("ab"),
        string("NaN"),
        string("Infinity"),
        string("-Infinity"),
    ];
    let mut values = leaves.clone();
    for leaf in leaves {
        values.push(JsonValue::Array(vec![]));
        values.push(JsonValue::Array(vec![leaf.clone()]));
        values.push(JsonValue::Array(vec![leaf.clone(), JsonValue::Bool(false)]));
        values.push(JsonValue::Array(vec![leaf.clone(), leaf.clone(), leaf.clone()]));
        values.push(members(vec![]));
        for key in ["a", "b", "some", "ok", "err", "c"] {
            values.push(members(vec![(key, leaf.clone())]));
        }
        values.push(members(vec![("a", leaf.clone()), ("b", JsonValue::Null)]));
        values.push(members(vec![("b", members(vec![("some", leaf.clone())])), ("a", leaf.clone())]));
        values.push(members(vec![("a", leaf.clone()), ("b", leaf.clone()), ("c", leaf)]));
    }
    values
}

#[test]
fn the_schema_of_a_type_accepts_exactly_what_is_read_under_the_type() {
    let values = sample_values();
    for ty in sample_types() {
        let schema = ty.into_schema();
        for value in &values {
            assert_eq!(
                schema.accepts(value),
                Value::from_json(value, &ty).is_ok(),
                "for {:?} under {:?}",
                value,
                ty
            );
        }
    }
}

#[test]
fn every_type_reads_some_of_the_samples_and_rejects_others() {
    let values = sample_values();
    for ty in sample_types() {
        let read = values.iter().filter(|v| Value::from_json(v, &ty).is_ok()).count();
        assert!(read > 0, "nothing is read under {:?}", ty);
        assert!(read < values.len(), "everything is read under {:?}", ty);
    }
}

#[test]
fn the_schema_of_a_type_accepts_what_its_values_are_written_as() {
    let ty = TypeDescriptor::Record(vec![
        (name("id"), TypeDescriptor::U64),
        (name("ratio"), TypeDescriptor::Float32),
        (
            "shape".to_string(),
            TypeDescriptor::Variant(vec![
                (name("dot"), None),
                (name("box"), Some(TypeDescriptor::Tuple(vec![TypeDescriptor::S16; 2]))),
            ]),
        ),
        (name("flags"), TypeDescriptor::Flags(vec![name("r"), name("w")])),
        (
            name("last"),
            TypeDescriptor::Result(None, Some(Box::new(TypeDescriptor::Enum(vec![name("e")])))),
        ),
    ]);
    let value = Value::Record(vec![
        (name("id"), Value::U64(1)),
        (name("ratio"), Value::Float32(FloatValue::NegInfinity)),
        (
            name("shape"),
            Value::Variant(
                name("box"),
                Some(Box::new(Value::Tuple(vec![Value::S16(1), Value::S16(-1)]))),
            ),
        ),
        (name("flags"), Value::Flags(vec![name("w")])),
        (name("last"), Value::Result(Err(Some(Box::new(Value::Enum(name("e"))))))),
    ]);
    assert!(ty.into_schema().accepts(&value.to_json()));
}

#[test]
fn integer_schemas_accept_their_bounds_and_nothing_beyond() {
    let schema = SchemaNode::Integer { minimum: -2, maximum: 3 };
    assert!(schema.accepts(&whole(-2)));
    assert!(schema.accepts(&whole(3)));
    assert!(!schema.accepts(&whole(-3)));
    assert!(!schema.accepts(&whole(4)));
    assert!(!schema.accepts(&JsonValue::Number(Number::Float(0))));
    assert!(!schema.accepts(&string("1")));
    let wide = SchemaNode::Integer { minimum: 0, maximum: u64::MAX as i128 };
    assert!(wide.accepts(&JsonValue::Number(Number::PosInt(u64::MAX))));
}

#[test]
fn string_schemas_count_characters() {
    let one = SchemaNode::String { min_length: 1, max_length: Some(1) };
    assert!(one.accepts(&string("é")));
    assert!(!one.accepts(&string("")));
    assert!(!one.accepts(&string("ab")));
    let any = SchemaNode::String { min_length: 0, max_length: None };
    assert!(any.accepts(&string("")));
    assert!(any.accepts(&string("a longer string")));
    assert!(!any.accepts(&JsonValue::Null));
}

#[test]
fn a_closed_object_has_no_member_beside_its_properties() {
    let properties = vec![(name("a"), SchemaNode::Boolean)];
    let open = SchemaNode::Object { properties: properties.clone(), closed: false };
    let closed = SchemaNode::Object { properties, closed: true };
    let exact = members(vec![("a", JsonValue::Bool(true))]);
    let more = members(vec![("a", JsonValue::Bool(true)), ("b", JsonValue::Null)]);
    let wrong = members(vec![("a", JsonValue::Null)]);
    assert!(open.accepts(&exact) && closed.accepts(&exact));
    assert!(open.accepts(&more) && !closed.accepts(&more));
    assert!(!open.accepts(&wrong) && !closed.accepts(&wrong));
    assert!(!open.accepts(&members(vec![])) && !closed.accepts(&members(vec![])));
}

#[test]
fn the_other_schemas_accept_their_shapes() {
    assert!(SchemaNode::Null.accepts(&JsonValue::Null));
    assert!(!SchemaNode::Null.accepts(&JsonValue::Bool(false)));
    assert!(SchemaNode::Boolean.accepts(&JsonValue::Bool(false)));
    assert!(SchemaNode::Number.accepts(&JsonValue::Number(Number::Float(1))));
    assert!(SchemaNode::Number.accepts(&whole(-1)));
    assert!(!SchemaNode::Number.accepts(&string("NaN")));
    let choice = SchemaNode::Choice(vec![name("a")]);
    assert!(choice.accepts(&string("a")) && !choice.accepts(&string("b")));
    let array = SchemaNode::Array(Box::new(SchemaNode::Boolean));
    assert!(array.accepts(&JsonValue::Array(vec![])));
    assert!(!array.accepts(&JsonValue::Array(vec![JsonValue::Bool(true), JsonValue::Null])));
    let tuple = SchemaNode::Tuple(vec![SchemaNode::Null, SchemaNode::Boolean]);
    assert!(tuple.accepts(&JsonValue::Array(vec![JsonValue::Null, JsonValue::Bool(true)])));
    assert!(!tuple.accepts(&JsonValue::Array(vec![JsonValue::Bool(true), JsonValue::Null])));
    assert!(!tuple.accepts(&JsonValue::Array(vec![JsonValue::Null])));
    let any = SchemaNode::AnyOf(vec![SchemaNode::Null, SchemaNode::Boolean]);
    assert!(any.accepts(&JsonValue::Null) && any.accepts(&JsonValue::Bool(true)));
    assert!(!any.accepts(&whole(1)));
    assert!(!SchemaNode::AnyOf(vec![]).accepts(&JsonValue::Null));
}

#[test]
fn the_request_schema_accepts_exactly_the_bodies_that_give_arguments() {
    let prototype = FunctionSignature {
        name: name("f"),
        params: vec![(name("a"), TypeDescriptor::U8), (name("b"), TypeDescriptor::String)],
        results: Results::Anon(TypeDescriptor::Bool),
        docs: None,
    };
    let endpoint = Endpoint::new(name("/w/f"), prototype, ());
    let schema = endpoint.function_request_body().schema;
    for value in sample_values() {
        if let JsonValue::Object(body) = &value {
            assert_eq!(
                schema.accepts(&value),
                endpoint.decode_parameters(body).is_ok(),
                "for {:?}",
                value
            );
        }
    }
}
