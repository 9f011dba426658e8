use nest::source::hjson::{Hjson, HjsonValue, IntoHjsonError};
use nest::source::FileSource;
use nest::value::Value;

#[test]
fn hjson_reads_quoteless_members() {
    let hjson = Hjson {};
    let document = hjson.deserialize("{\n  nest: true\n  n: -3\n  u: 3\n  f: 1.5\n}").unwrap();
    assert_eq!(
        hjson.to_value(&document),
        Value::Object(vec![
            ("nest".to_string(), Value::Bool(true)),
            ("n".to_string(), Value::Int(-3)),
            ("u".to_string(), Value::Uint(3)),
            ("f".to_string(), Value::Float(1.5f64.to_bits())),
        ])
    );
}

#[test]
fn hjson_writes_quoteless_members_and_a_final_line_feed() {
    let hjson = Hjson {};
    let value = Value::Object(vec![("nest".to_string(), Value::Bool(false))]);
    let document = hjson.from_value(&value).unwrap();
    assert_eq!(hjson.serialize(&document).unwrap(), "{\n  nest: false\n}\n");
}

#[test]
fn hjson_keeps_signed_and_unsigned_apart() {
    let hjson = Hjson {};
    assert_eq!(hjson.from_value(&Value::Int(7)), Ok(HjsonValue::I64(7)));
    assert_eq!(hjson.from_value(&Value::Uint(7)), Ok(HjsonValue::U64(7)));
    assert_eq!(hjson.to_value(&HjsonValue::I64(7)), Value::Int(7));
    assert_eq!(hjson.to_value(&HjsonValue::U64(7)), Value::Uint(7));
}

#[test]
fn hjson_refuses_nan_and_infinity() {
    let hjson = Hjson {};
    assert_eq!(hjson.from_value(&Value::Float(f64::NAN.to_bits())), Err(IntoHjsonError::Nan));
    assert_eq!(
        hjson.from_value(&Value::Float(f64::INFINITY.to_bits())),
        Err(IntoHjsonError::Infinite)
    );
}

#[test]
fn hjson_writes_a_float_from_its_bits() {
    let hjson = Hjson {};
    let document = hjson.from_value(&Value::Float(1.5f64.to_bits())).unwrap();
    assert_eq!(hjson.serialize(&document).unwrap(), "1.5\n");
}
