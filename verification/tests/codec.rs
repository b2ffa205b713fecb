use wasm2openapi::json::{JsonValue, Number};
use wasm2openapi::types::{Kind, TypeDescriptor};
use wasm2openapi::value::{FloatValue, Segment, TypeMismatch, Value};

fn text(s: &str) -> JsonValue {
    JsonValue::String(s.to_string())
}

fn whole(n: i64) -> JsonValue {
    if n < 0 {
        JsonValue::Number(Number::NegInt(n))
    } else {
        JsonValue::Number(Number::PosInt(n as u64))
    }
}

fn object(members: Vec<(&str, JsonValue)>) -> JsonValue {
    JsonValue::Object(members.into_iter().map(|(k, v)| (k.to_string(), v)).collect())
}

fn named(fields: Vec<(&str, TypeDescriptor)>) -> Vec<(String, TypeDescriptor)> {
    fields.into_iter().map(|(k, v)| (k.to_string(), v)).collect()
}

fn mismatch(path: Vec<Segment>, expected: Kind) -> TypeMismatch {
    TypeMismatch { path, expected }
}

fn key(name: &str) -> Segment {
    Segment::Key(name.to_string())
}

/// Reads `json` under `ty` and writes the value again.
fn there_and_back(json: &JsonValue, ty: &TypeDescriptor) -> JsonValue {
    Value::from_json(json, ty).expect("the value has the shape of the type").to_json()
}

#[test]
fn u8_rejects_what_is_out_of_range_or_no_integer() {
    let here = mismatch(vec![], Kind::U8);
    let fraction = JsonValue::Number(Number::Float(3.5f64.to_bits()));
    assert_eq!(Value::from_json(&whole(-1), &TypeDescriptor::U8), Err(here.clone()));
    assert_eq!(Value::from_json(&whole(256), &TypeDescriptor::U8), Err(here.clone()));
    assert_eq!(Value::from_json(&fraction, &TypeDescriptor::U8), Err(here.clone()));
    assert_eq!(Value::from_json(&text("7"), &TypeDescriptor::U8), Err(here));
}

#[test]
fn u8_accepts_its_range() {
    assert_eq!(Value::from_json(&whole(0), &TypeDescriptor::U8), Ok(Value::U8(0)));
    assert_eq!(Value::from_json(&whole(255), &TypeDescriptor::U8), Ok(Value::U8(255)));
}

#[test]
fn char_takes_exactly_one_character() {
    let here = mismatch(vec![], Kind::Char);
    assert_eq!(Value::from_json(&text("ab"), &TypeDescriptor::Char), Err(here.clone()));
    assert_eq!(Value::from_json(&text(""), &TypeDescriptor::Char), Err(here.clone()));
    assert_eq!(Value::from_json(&whole(7), &TypeDescriptor::Char), Err(here));
    assert_eq!(Value::from_json(&text("é"), &TypeDescriptor::Char), Ok(Value::Char('é')));
}

#[test]
fn char_is_written_as_a_string_of_one_character() {
    assert_eq!(Value::Char('x').to_json(), text("x"));
    assert_eq!(Value::Char('é').to_json(), text("é"));
}

#[test]
fn integers_are_checked_against_the_bounds_of_their_type() {
    let cases: Vec<(TypeDescriptor, Kind, i128, i128)> = vec![
        (TypeDescriptor::U8, Kind::U8, 0, u8::MAX as i128),
        (TypeDescriptor::U16, Kind::U16, 0, u16::MAX as i128),
        (TypeDescriptor::U32, Kind::U32, 0, u32::MAX as i128),
        (TypeDescriptor::S8, Kind::S8, i8::MIN as i128, i8::MAX as i128),
        (TypeDescriptor::S16, Kind::S16, i16::MIN as i128, i16::MAX as i128),
        (TypeDescriptor::S32, Kind::S32, i32::MIN as i128, i32::MAX as i128),
        (TypeDescriptor::Resource(3), Kind::Resource, 0, u32::MAX as i128),
    ];
    for (ty, kind, low, high) in cases {
        assert!(Value::from_json(&whole(low as i64), &ty).is_ok());
        assert!(Value::from_json(&whole(high as i64), &ty).is_ok());
        assert_eq!(Value::from_json(&whole((low - 1) as i64), &ty), Err(mismatch(vec![], kind)));
        assert_eq!(Value::from_json(&whole((high + 1) as i64), &ty), Err(mismatch(vec![], kind)));
    }
}

#[test]
fn the_widest_integers_keep_every_value() {
    let top = JsonValue::Number(Number::PosInt(u64::MAX));
    assert_eq!(Value::from_json(&top, &TypeDescriptor::U64), Ok(Value::U64(u64::MAX)));
    assert_eq!(
        Value::from_json(&top, &TypeDescriptor::S64),
        Err(mismatch(vec![], Kind::S64))
    );
    assert_eq!(
        Value::from_json(&whole(i64::MIN), &TypeDescriptor::S64),
        Ok(Value::S64(i64::MIN))
    );
    assert_eq!(
        Value::from_json(&whole(-1), &TypeDescriptor::U64),
        Err(mismatch(vec![], Kind::U64))
    );
    assert_eq!(Value::U64(u64::MAX).to_json(), top);
    assert_eq!(Value::S64(i64::MIN).to_json(), whole(i64::MIN));
    assert_eq!(Value::S8(-5).to_json(), whole(-5));
    assert_eq!(Value::S32(5).to_json(), whole(5));
}

#[test]
fn scalars_come_back_as_they_went_in() {
    let cases: Vec<(JsonValue, TypeDescriptor)> = vec![
        (JsonValue::Bool(true), TypeDescriptor::Bool),
        (JsonValue::Bool(false), TypeDescriptor::Bool),
        (whole(200), TypeDescriptor::U8),
        (whole(60000), TypeDescriptor::U16),
        (whole(4_000_000_000), TypeDescriptor::U32),
        (JsonValue::Number(Number::PosInt(u64::MAX)), TypeDescriptor::U64),
        (whole(-128), TypeDescriptor::S8),
        (whole(-32768), TypeDescriptor::S16),
        (whole(-2_000_000_000), TypeDescriptor::S32),
        (whole(i64::MIN), TypeDescriptor::S64),
        (JsonValue::Number(Number::Float(1.5f64.to_bits())), TypeDescriptor::Float32),
        (JsonValue::Number(Number::Float((-0.1f64).to_bits())), TypeDescriptor::Float64),
        (whole(5), TypeDescriptor::Float64),
        (text("NaN"), TypeDescriptor::Float64),
        (text("Infinity"), TypeDescriptor::Float32),
        (text("-Infinity"), TypeDescriptor::Float64),
        (text("λ"), TypeDescriptor::Char),
        (text(""), TypeDescriptor::String),
        (text("hello, world"), TypeDescriptor::String),
    ];
    for (json, ty) in cases {
        assert_eq!(there_and_back(&json, &ty), json);
    }
}

#[test]
fn floats_pass_through_unchanged() {
    let number = Number::Float(2.25f64.to_bits());
    assert_eq!(
        Value::from_json(&JsonValue::Number(number), &TypeDescriptor::Float64),
        Ok(Value::Float64(FloatValue::Finite(number)))
    );
    assert_eq!(
        Value::from_json(&whole(-3), &TypeDescriptor::Float32),
        Ok(Value::Float32(FloatValue::Finite(Number::NegInt(-3))))
    );
    assert_eq!(
        Value::Float64(FloatValue::Finite(number)).to_json(),
        JsonValue::Number(number)
    );
}

#[test]
fn floats_that_are_no_numbers_have_names() {
    assert_eq!(Value::Float64(FloatValue::NaN).to_json(), text("NaN"));
    assert_eq!(Value::Float64(FloatValue::Infinity).to_json(), text("Infinity"));
    assert_eq!(Value::Float32(FloatValue::NegInfinity).to_json(), text("-Infinity"));
    assert_eq!(
        Value::from_json(&text("NaN"), &TypeDescriptor::Float32),
        Ok(Value::Float32(FloatValue::NaN))
    );
    assert_eq!(
        Value::from_json(&text("Infinity"), &TypeDescriptor::Float64),
        Ok(Value::Float64(FloatValue::Infinity))
    );
    assert_eq!(
        Value::from_json(&text("-Infinity"), &TypeDescriptor::Float64),
        Ok(Value::Float64(FloatValue::NegInfinity))
    );
    assert_eq!(
        Value::from_json(&text("nan"), &TypeDescriptor::Float64),
        Err(mismatch(vec![], Kind::Float64))
    );
    assert_eq!(
        Value::from_json(&JsonValue::Null, &TypeDescriptor::Float32),
        Err(mismatch(vec![], Kind::Float32))
    );
}

#[test]
fn string_rejects_a_number() {
    assert_eq!(
        Value::from_json(&whole(1), &TypeDescriptor::String),
        Err(mismatch(vec![], Kind::String))
    );
    assert_eq!(
        Value::from_json(&text("1"), &TypeDescriptor::Bool),
        Err(mismatch(vec![], Kind::Bool))
    );
}

#[test]
fn list_is_read_item_by_item() {
    let ty = TypeDescriptor::List(Box::new(TypeDescriptor::U8));
    let json = JsonValue::Array(vec![whole(1), whole(2), whole(3)]);
    let value = Value::List(vec![Value::U8(1), Value::U8(2), Value::U8(3)]);
    assert_eq!(Value::from_json(&json, &ty), Ok(value.clone()));
    assert_eq!(value.to_json(), json);
    assert_eq!(Value::from_json(&JsonValue::Array(vec![]), &ty), Ok(Value::List(vec![])));
    assert_eq!(Value::from_json(&whole(1), &ty), Err(mismatch(vec![], Kind::List)));
}

#[test]
fn list_reports_the_first_item_that_fails() {
    let ty = TypeDescriptor::List(Box::new(TypeDescriptor::U8));
    let json = JsonValue::Array(vec![whole(1), whole(300), text("x")]);
    assert_eq!(
        Value::from_json(&json, &ty),
        Err(mismatch(vec![Segment::Index(1)], Kind::U8))
    );
}

#[test]
fn record_is_read_field_by_field() {
    let ty = TypeDescriptor::Record(named(vec![
        ("amount", TypeDescriptor::U32),
        ("label", TypeDescriptor::String),
    ]));
    let json = object(vec![("label", text("a")), ("extra", whole(0)), ("amount", whole(7))]);
    let value = Value::Record(vec![
        ("amount".to_string(), Value::U32(7)),
        ("label".to_string(), Value::String("a".to_string())),
    ]);
    assert_eq!(Value::from_json(&json, &ty), Ok(value.clone()));
    assert_eq!(value.to_json(), object(vec![("amount", whole(7)), ("label", text("a"))]));
    assert_eq!(Value::from_json(&value.to_json(), &ty), Ok(value));
}

#[test]
fn record_reports_a_missing_field_and_a_mismatched_one() {
    let ty = TypeDescriptor::Record(named(vec![
        ("amount", TypeDescriptor::U32),
        ("label", TypeDescriptor::String),
    ]));
    assert_eq!(
        Value::from_json(&object(vec![("amount", whole(7))]), &ty),
        Err(mismatch(vec![key("label")], Kind::String))
    );
    assert_eq!(
        Value::from_json(&object(vec![("amount", text("7")), ("label", text("a"))]), &ty),
        Err(mismatch(vec![key("amount")], Kind::U32))
    );
    assert_eq!(
        Value::from_json(&JsonValue::Array(vec![]), &ty),
        Err(mismatch(vec![], Kind::Record))
    );
}

#[test]
fn nested_mismatch_has_the_whole_path() {
    let ty = TypeDescriptor::Record(named(vec![(
        "points",
        TypeDescriptor::List(Box::new(TypeDescriptor::Tuple(vec![
            TypeDescriptor::S8,
            TypeDescriptor::S8,
        ]))),
    )]));
    let json = object(vec![(
        "points",
        JsonValue::Array(vec![
            JsonValue::Array(vec![whole(1), whole(2)]),
            JsonValue::Array(vec![whole(3), whole(200)]),
        ]),
    )]);
    assert_eq!(
        Value::from_json(&json, &ty),
        Err(mismatch(vec![key("points"), Segment::Index(1), Segment::Index(1)], Kind::S8))
    );
}

#[test]
fn tuple_has_a_fixed_length() {
    let ty = TypeDescriptor::Tuple(vec![TypeDescriptor::Bool, TypeDescriptor::Char]);
    let json = JsonValue::Array(vec![JsonValue::Bool(true), text("c")]);
    let value = Value::Tuple(vec![Value::Bool(true), Value::Char('c')]);
    assert_eq!(Value::from_json(&json, &ty), Ok(value.clone()));
    assert_eq!(value.to_json(), json);
    assert_eq!(
        Value::from_json(&JsonValue::Array(vec![JsonValue::Bool(true)]), &ty),
        Err(mismatch(vec![], Kind::Tuple))
    );
    assert_eq!(
        Value::from_json(
            &JsonValue::Array(vec![JsonValue::Bool(true), text("c"), whole(1)]),
            &ty
        ),
        Err(mismatch(vec![], Kind::Tuple))
    );
    assert_eq!(
        Value::from_json(&JsonValue::Array(vec![whole(1), text("c")]), &ty),
        Err(mismatch(vec![Segment::Index(0)], Kind::Bool))
    );
}

#[test]
fn variant_is_an_object_named_by_the_case() {
    let ty = TypeDescriptor::Variant(vec![
        ("circle".to_string(), Some(TypeDescriptor::U32)),
        ("nothing".to_string(), None),
    ]);
    let circle = Value::Variant("circle".to_string(), Some(Box::new(Value::U32(4))));
    let nothing = Value::Variant("nothing".to_string(), None);
    assert_eq!(circle.to_json(), object(vec![("circle", whole(4))]));
    assert_eq!(nothing.to_json(), object(vec![("nothing", JsonValue::Null)]));
    assert_eq!(Value::from_json(&circle.to_json(), &ty), Ok(circle));
    assert_eq!(Value::from_json(&nothing.to_json(), &ty), Ok(nothing));
    assert_eq!(
        Value::from_json(&object(vec![("square", whole(4))]), &ty),
        Err(mismatch(vec![], Kind::Variant))
    );
    assert_eq!(
        Value::from_json(&object(vec![("circle", whole(4)), ("nothing", JsonValue::Null)]), &ty),
        Err(mismatch(vec![], Kind::Variant))
    );
    assert_eq!(
        Value::from_json(&object(vec![("circle", text("4"))]), &ty),
        Err(mismatch(vec![key("circle")], Kind::U32))
    );
    assert_eq!(
        Value::from_json(&object(vec![("nothing", whole(4))]), &ty),
        Err(mismatch(vec![key("nothing")], Kind::Variant))
    );
}

#[test]
fn enum_is_the_name_of_the_case() {
    let ty = TypeDescriptor::Enum(vec!["red".to_string(), "green".to_string()]);
    assert_eq!(Value::from_json(&text("green"), &ty), Ok(Value::Enum("green".to_string())));
    assert_eq!(Value::Enum("red".to_string()).to_json(), text("red"));
    assert_eq!(Value::from_json(&text("blue"), &ty), Err(mismatch(vec![], Kind::Enum)));
    assert_eq!(Value::from_json(&whole(0), &ty), Err(mismatch(vec![], Kind::Enum)));
}

#[test]
fn option_tells_none_from_some_at_every_depth() {
    let inner = TypeDescriptor::Option(Box::new(TypeDescriptor::U8));
    let outer = TypeDescriptor::Option(Box::new(inner.clone()));
    let none = Value::Option(None);
    let some_none = Value::Option(Some(Box::new(Value::Option(None))));
    let some_some = Value::Option(Some(Box::new(Value::Option(Some(Box::new(Value::U8(1)))))));
    assert_eq!(none.to_json(), JsonValue::Null);
    assert_eq!(some_none.to_json(), object(vec![("some", JsonValue::Null)]));
    assert_eq!(
        some_some.to_json(),
        object(vec![("some", object(vec![("some", whole(1))]))])
    );
    for value in [none, some_none, some_some] {
        assert_eq!(Value::from_json(&value.to_json(), &outer), Ok(value));
    }
    assert_eq!(Value::from_json(&whole(1), &inner), Err(mismatch(vec![], Kind::Option)));
    assert_eq!(
        Value::from_json(&object(vec![("none", whole(1))]), &inner),
        Err(mismatch(vec![], Kind::Option))
    );
    assert_eq!(
        Value::from_json(&object(vec![("some", whole(256))]), &inner),
        Err(mismatch(vec![key("some")], Kind::U8))
    );
}

#[test]
fn result_is_an_object_named_ok_or_err() {
    let ty = TypeDescriptor::Result(Some(Box::new(TypeDescriptor::U8)), None);
    let ok = Value::Result(Ok(Some(Box::new(Value::U8(1)))));
    let err = Value::Result(Err(None));
    assert_eq!(ok.to_json(), object(vec![("ok", whole(1))]));
    assert_eq!(err.to_json(), object(vec![("err", JsonValue::Null)]));
    assert_eq!(Value::from_json(&ok.to_json(), &ty), Ok(ok));
    assert_eq!(Value::from_json(&err.to_json(), &ty), Ok(err));
    assert_eq!(
        Value::from_json(&object(vec![("err", whole(1))]), &ty),
        Err(mismatch(vec![key("err")], Kind::Result))
    );
    assert_eq!(
        Value::from_json(&object(vec![("ok", JsonValue::Null)]), &ty),
        Err(mismatch(vec![key("ok")], Kind::U8))
    );
    assert_eq!(
        Value::from_json(&object(vec![("fine", whole(1))]), &ty),
        Err(mismatch(vec![], Kind::Result))
    );
    assert_eq!(Value::from_json(&JsonValue::Null, &ty), Err(mismatch(vec![], Kind::Result)));
}

#[test]
fn flags_are_the_names_of_the_bits_that_are_set() {
    let ty = TypeDescriptor::Flags(vec!["read".to_string(), "write".to_string()]);
    let json = JsonValue::Array(vec![text("write"), text("read")]);
    let value = Value::Flags(vec!["write".to_string(), "read".to_string()]);
    assert_eq!(Value::from_json(&json, &ty), Ok(value.clone()));
    assert_eq!(value.to_json(), json);
    assert_eq!(Value::from_json(&JsonValue::Array(vec![]), &ty), Ok(Value::Flags(vec![])));
    assert_eq!(
        Value::from_json(&JsonValue::Array(vec![text("read"), text("exec")]), &ty),
        Err(mismatch(vec![Segment::Index(1)], Kind::Flags))
    );
    assert_eq!(
        Value::from_json(&JsonValue::Array(vec![whole(0)]), &ty),
        Err(mismatch(vec![Segment::Index(0)], Kind::Flags))
    );
    assert_eq!(Value::from_json(&text("read"), &ty), Err(mismatch(vec![], Kind::Flags)));
}

#[test]
fn resource_is_its_handle() {
    let ty = TypeDescriptor::Resource(0);
    assert_eq!(Value::from_json(&whole(17), &ty), Ok(Value::Resource(17)));
    assert_eq!(Value::Resource(17).to_json(), whole(17));
}

#[test]
fn values_of_a_type_come_back_as_they_went_out() {
    let ty = TypeDescriptor::Record(named(vec![
        ("id", TypeDescriptor::U64),
        ("tags", TypeDescriptor::List(Box::new(TypeDescriptor::String))),
        (
            "shape",
            TypeDescriptor::Variant(vec![
                ("dot".to_string(), None),
                (
                    "box".to_string(),
                    Some(TypeDescriptor::Tuple(vec![TypeDescriptor::S16, TypeDescriptor::S16])),
                ),
            ]),
        ),
        ("ratio", TypeDescriptor::Option(Box::new(TypeDescriptor::Float64))),
    ]));
    let value = Value::Record(vec![
        ("id".to_string(), Value::U64(9)),
        (
            "tags".to_string(),
            Value::List(vec![Value::String("a".to_string()), Value::String("b".to_string())]),
        ),
        (
            "shape".to_string(),
            Value::Variant(
                "box".to_string(),
                Some(Box::new(Value::Tuple(vec![Value::S16(-1), Value::S16(2)]))),
            ),
        ),
        (
            "ratio".to_string(),
            Value::Option(Some(Box::new(Value::Float64(FloatValue::NaN)))),
        ),
    ]);
    assert_eq!(Value::from_json(&value.to_json(), &ty), Ok(value));
}

#[test]
fn a_copy_of_a_value_equals_it() {
    let value = Value::Tuple(vec![
        Value::Result(Ok(None)),
        Value::Flags(vec!["a".to_string()]),
        Value::Enum("e".to_string()),
    ]);
    assert_eq!(value.clone(), value);
    let ty = TypeDescriptor::Result(None, Some(Box::new(TypeDescriptor::Enum(vec!["e".to_string()]))));
    assert_eq!(ty.clone(), ty);
    assert_eq!(ty.kind(), Kind::Result);
}

#[test]
fn mismatch_is_seen_from_the_value_that_holds_it() {
    let inner = TypeMismatch::here(Kind::Bool);
    assert_eq!(inner, mismatch(vec![], Kind::Bool));
    let outer = inner.under(Segment::Index(2)).under(key("a"));
    assert_eq!(outer, mismatch(vec![key("a"), Segment::Index(2)], Kind::Bool));
}
