use nest::source::toml_format::{IntoTomlError, Toml, TomlValue};
use nest::source::FileSource;
use nest::value::Value;

#[test]
fn toml_reads_a_table() {
    let toml = Toml {};
    let document = toml.deserialize("\nnest = true\nn = -3\nf = 1.5\ns = \"x\"\n").unwrap();
    assert_eq!(
        toml.to_value(&document),
        Value::Object(vec![
            ("nest".to_string(), Value::Bool(true)),
            ("n".to_string(), Value::Int(-3)),
            ("f".to_string(), Value::Float(1.5f64.to_bits())),
            ("s".to_string(), Value::String("x".to_string())),
        ])
    );
}

#[test]
fn toml_writes_a_table() {
    let toml = Toml {};
    let value = Value::Object(vec![("nest".to_string(), Value::Bool(false))]);
    let document = toml.from_value(&value).unwrap();
    assert_eq!(toml.serialize(&document).unwrap(), "nest = false\n");
}

#[test]
fn toml_refuses_null() {
    let toml = Toml {};
    assert_eq!(toml.from_value(&Value::Null), Err(IntoTomlError::Null));
    let nested = Value::Object(vec![("a".to_string(), Value::Array(vec![Value::Null]))]);
    assert_eq!(toml.from_value(&nested), Err(IntoTomlError::Null));
}

#[test]
fn toml_takes_an_unsigned_integer_as_signed() {
    let toml = Toml {};
    assert_eq!(toml.from_value(&Value::Uint(5)), Ok(TomlValue::Integer(5)));
    assert_eq!(toml.from_value(&Value::Uint(u64::MAX)), Ok(TomlValue::Integer(-1)));
    assert_eq!(toml.to_value(&toml.from_value(&Value::Uint(u64::MAX)).unwrap()), Value::Int(-1));
}

#[test]
fn toml_reads_an_integer_from_zero_up_as_unsigned() {
    let toml = Toml {};
    assert_eq!(toml.to_value(&TomlValue::Integer(5)), Value::Uint(5));
    assert_eq!(toml.to_value(&TomlValue::Integer(0)), Value::Uint(0));
    assert_eq!(toml.to_value(&TomlValue::Integer(i64::MAX)), Value::Uint(i64::MAX as u64));
    assert_eq!(toml.to_value(&TomlValue::Integer(-1)), Value::Int(-1));
    assert_eq!(toml.to_value(&TomlValue::Integer(i64::MIN)), Value::Int(i64::MIN));
    let document = toml.deserialize("u = 5\ni = -5\n").unwrap();
    assert_eq!(
        toml.to_value(&document),
        Value::Object(vec![
            ("u".to_string(), Value::Uint(5)),
            ("i".to_string(), Value::Int(-5)),
        ])
    );
}

#[test]
fn toml_gives_an_unsigned_integer_back_unsigned() {
    let toml = Toml {};
    for u in [0u64, 5, i64::MAX as u64] {
        let value = Value::Object(vec![("u".to_string(), Value::Uint(u))]);
        assert_eq!(toml.to_value(&toml.from_value(&value).unwrap()), value);
        let text = toml.serialize(&toml.from_value(&value).unwrap()).unwrap();
        assert_eq!(toml.to_value(&toml.deserialize(&text).unwrap()), value);
    }
}

#[test]
fn toml_takes_a_string_that_reads_as_a_date_for_a_date() {
    let toml = Toml {};
    assert_eq!(
        toml.from_value(&Value::String("1979-05-27T07:32:00Z".to_string())),
        Ok(TomlValue::Datetime("1979-05-27T07:32:00Z".to_string()))
    );
    assert_eq!(
        toml.from_value(&Value::String("hello".to_string())),
        Ok(TomlValue::String("hello".to_string()))
    );
    let value = Value::Object(vec![(
        "when".to_string(),
        Value::String("1979-05-27T07:32:00Z".to_string()),
    )]);
    let document = toml.from_value(&value).unwrap();
    assert_eq!(toml.serialize(&document).unwrap(), "when = 1979-05-27T07:32:00Z\n");
    let back = toml.deserialize("when = 1979-05-27T07:32:00Z\n").unwrap();
    assert_eq!(toml.to_value(&back), value);
}

#[test]
fn toml_writes_a_float_from_its_bits() {
    let toml = Toml {};
    let value = Value::Object(vec![("f".to_string(), Value::Float(1.5f64.to_bits()))]);
    let document = toml.from_value(&value).unwrap();
    assert_eq!(toml.serialize(&document).unwrap(), "f = 1.5\n");
}

#[test]
fn toml_refuses_text_that_is_not_toml() {
    let toml = Toml {};
    assert!(toml.deserialize("nest = ").is_err());
}
