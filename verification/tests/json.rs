use wasm2openapi::json::{get, JsonValue, Number};

#[test]
fn number_as_unsigned() {
    assert_eq!(Number::PosInt(7).as_u64(), Some(7));
    assert_eq!(Number::PosInt(u64::MAX).as_u64(), Some(u64::MAX));
    assert_eq!(Number::NegInt(-7).as_u64(), None);
    assert_eq!(Number::Float(0).as_u64(), None);
}

#[test]
fn number_as_signed() {
    assert_eq!(Number::PosInt(7).as_i64(), Some(7));
    assert_eq!(Number::PosInt(i64::MAX as u64).as_i64(), Some(i64::MAX));
    assert_eq!(Number::PosInt(i64::MAX as u64 + 1).as_i64(), None);
    assert_eq!(Number::NegInt(i64::MIN).as_i64(), Some(i64::MIN));
    assert_eq!(Number::Float(0).as_i64(), None);
}

#[test]
fn number_from_integers_is_canonical() {
    assert_eq!(Number::from_u64(0), Number::PosInt(0));
    assert_eq!(Number::from_i64(0), Number::PosInt(0));
    assert_eq!(Number::from_i64(12), Number::PosInt(12));
    assert_eq!(Number::from_i64(-12), Number::NegInt(-12));
}

#[test]
fn the_first_member_of_a_name_counts() {
    let members = vec![
        ("a".to_string(), JsonValue::Bool(true)),
        ("b".to_string(), JsonValue::Null),
        ("a".to_string(), JsonValue::Bool(false)),
    ];
    assert_eq!(get(&members, &"a".to_string()), Some(&JsonValue::Bool(true)));
    assert_eq!(get(&members, &"b".to_string()), Some(&JsonValue::Null));
    assert_eq!(get(&members, &"c".to_string()), None);
    assert_eq!(get(&Vec::new(), &"a".to_string()), None);
}

#[test]
fn a_copy_of_a_json_value_equals_it() {
    let value = JsonValue::Object(vec![
        ("list".to_string(), JsonValue::Array(vec![JsonValue::Null, JsonValue::Bool(true)])),
        ("n".to_string(), JsonValue::Number(Number::NegInt(-1))),
        ("s".to_string(), JsonValue::String("x".to_string())),
    ]);
    assert_eq!(value.clone(), value);
}
