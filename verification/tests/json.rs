use nest::source::json::{IntoJsonError, Json, JsonNumber, JsonValue};
use nest::source::FileSource;
use nest::value::Value;

fn object(members: Vec<(&str, Value)>) -> Value {
    Value::Object(members.into_iter().map(|(k, v)| (k.to_string(), v)).collect())
}

#[test]
fn json_reads_each_kind_of_value() {
    let json = Json {};
    let text = r#"{"n": null, "b": true, "u": 5, "i": -5, "f": 1.5, "s": "x", "a": [1, 2]}"#;
    let document = json.deserialize(text).unwrap();
    assert_eq!(
        json.to_value(&document),
        object(vec![
            ("n", Value::Null),
            ("b", Value::Bool(true)),
            ("u", Value::Uint(5)),
            ("i", Value::Int(-5)),
            ("f", Value::Float(1.5f64.to_bits())),
            ("s", Value::String("x".to_string())),
            ("a", Value::Array(vec![Value::Uint(1), Value::Uint(2)])),
        ])
    );
}

#[test]
fn json_keeps_the_order_of_members() {
    let json = Json {};
    let document = json.deserialize(r#"{"b": 1, "a": 2}"#).unwrap();
    assert_eq!(
        document,
        JsonValue::Object(vec![
            ("b".to_string(), JsonValue::Number(JsonNumber::PosInt(1))),
            ("a".to_string(), JsonValue::Number(JsonNumber::PosInt(2))),
        ])
    );
    assert_eq!(json.serialize(&document).unwrap(), "{\n  \"b\": 1,\n  \"a\": 2\n}\n");
}

#[test]
fn json_writes_indented_text_with_a_final_line_feed() {
    let json = Json {};
    let document = json.from_value(&object(vec![("nest", Value::Bool(true))])).unwrap();
    assert_eq!(json.serialize(&document).unwrap(), "{\n  \"nest\": true\n}\n");
}

#[test]
fn json_writes_a_float_as_a_float() {
    let json = Json {};
    let document = json.from_value(&Value::Float(2.0f64.to_bits())).unwrap();
    assert_eq!(document, JsonValue::Number(JsonNumber::Float(2.0f64.to_bits())));
    assert_eq!(json.serialize(&document).unwrap(), "2.0\n");
    let back = json.deserialize("2.0").unwrap();
    assert_eq!(json.to_value(&back), Value::Float(2.0f64.to_bits()));
}

#[test]
fn json_refuses_nan_and_infinity() {
    let json = Json {};
    assert_eq!(json.from_value(&Value::Float(f64::NAN.to_bits())), Err(IntoJsonError::Nan));
    assert_eq!(
        json.from_value(&Value::Float(f64::INFINITY.to_bits())),
        Err(IntoJsonError::Infinite)
    );
    assert_eq!(
        json.from_value(&Value::Float(f64::NEG_INFINITY.to_bits())),
        Err(IntoJsonError::Infinite)
    );
    assert_eq!(
        json.from_value(&Value::Array(vec![Value::Uint(1), Value::Float(f64::NAN.to_bits())])),
        Err(IntoJsonError::Nan)
    );
}

#[test]
fn json_refuses_text_that_is_not_json() {
    let json = Json {};
    assert!(json.deserialize("{").is_err());
}

#[test]
fn json_signed_integers_from_zero_up_become_unsigned() {
    let json = Json {};
    let document = json.from_value(&Value::Int(7)).unwrap();
    assert_eq!(document, JsonValue::Number(JsonNumber::PosInt(7)));
    assert_eq!(json.to_value(&document), Value::Uint(7));
    let negative = json.from_value(&Value::Int(-7)).unwrap();
    assert_eq!(json.to_value(&negative), Value::Int(-7));
}

#[test]
fn json_reads_an_integer_by_its_sign_in_either_form() {
    let json = Json {};
    assert_eq!(json.to_value(&JsonValue::Number(JsonNumber::NegInt(5))), Value::Uint(5));
    assert_eq!(json.to_value(&JsonValue::Number(JsonNumber::NegInt(0))), Value::Uint(0));
    assert_eq!(json.to_value(&JsonValue::Number(JsonNumber::NegInt(-1))), Value::Int(-1));
    assert_eq!(
        json.to_value(&JsonValue::Number(JsonNumber::NegInt(i64::MAX))),
        Value::Uint(9223372036854775807)
    );
    assert_eq!(
        json.to_value(&JsonValue::Array(vec![JsonValue::Number(JsonNumber::NegInt(3))])),
        Value::Array(vec![Value::Uint(3)])
    );
    assert_eq!(Value::from(JsonValue::Number(JsonNumber::NegInt(5))), Value::Uint(5));
}
