use nest::source::yaml::{FromYamlError, Yaml, YamlNumber, YamlValue};
use nest::source::FileSource;
use nest::value::Value;

#[test]
fn yaml_reads_a_mapping() {
    let yaml = Yaml {};
    let document = yaml.deserialize("\nnest: true\nn: -3\nu: 3\nf: 1.5\nz: ~\n").unwrap();
    assert_eq!(
        yaml.to_value(&document),
        Ok(Value::Object(vec![
            ("nest".to_string(), Value::Bool(true)),
            ("n".to_string(), Value::Int(-3)),
            ("u".to_string(), Value::Uint(3)),
            ("f".to_string(), Value::Float(1.5f64.to_bits())),
            ("z".to_string(), Value::Null),
        ]))
    );
}

#[test]
fn yaml_writes_a_document_marker_and_a_final_line_feed() {
    let yaml = Yaml {};
    let value = Value::Object(vec![("nest".to_string(), Value::Bool(false))]);
    let document = yaml.from_value(&value);
    assert_eq!(yaml.serialize(&document).unwrap(), "---\nnest: false\n");
}

#[test]
fn yaml_refuses_a_key_that_is_not_a_string() {
    let yaml = Yaml {};
    let document = yaml.deserialize("1: one\n").unwrap();
    assert_eq!(
        yaml.to_value(&document),
        Err(FromYamlError::NonStringKey { key: YamlValue::Number(YamlNumber::PosInt(1)) })
    );
    let nested = yaml.deserialize("a:\n  - b: 1\n  - true: 2\n").unwrap();
    assert_eq!(
        yaml.to_value(&nested),
        Err(FromYamlError::NonStringKey { key: YamlValue::Bool(true) })
    );
}

#[test]
fn yaml_holds_every_float() {
    let yaml = Yaml {};
    let document = yaml.from_value(&Value::Float(f64::INFINITY.to_bits()));
    assert_eq!(document, YamlValue::Number(YamlNumber::Float(f64::INFINITY.to_bits())));
    assert_eq!(yaml.serialize(&document).unwrap(), "---\n.inf\n");
    let number = yaml.from_value(&Value::Float(1.5f64.to_bits()));
    assert_eq!(yaml.serialize(&number).unwrap(), "---\n1.5\n");
}

#[test]
fn yaml_signed_integers_from_zero_up_become_unsigned() {
    let yaml = Yaml {};
    let document = yaml.from_value(&Value::Int(7));
    assert_eq!(yaml.to_value(&document), Ok(Value::Uint(7)));
    let negative = yaml.from_value(&Value::Int(-7));
    assert_eq!(yaml.to_value(&negative), Ok(Value::Int(-7)));
}

#[test]
fn yaml_refuses_text_that_is_not_yaml() {
    let yaml = Yaml {};
    assert!(yaml.deserialize("a: [1, 2").is_err());
}

#[test]
fn yaml_reads_an_integer_by_its_sign_in_either_form() {
    let yaml = Yaml {};
    assert_eq!(yaml.to_value(&YamlValue::Number(YamlNumber::NegInt(5))), Ok(Value::Uint(5)));
    assert_eq!(yaml.to_value(&YamlValue::Number(YamlNumber::NegInt(0))), Ok(Value::Uint(0)));
    assert_eq!(yaml.to_value(&YamlValue::Number(YamlNumber::NegInt(-1))), Ok(Value::Int(-1)));
    assert_eq!(
        yaml.to_value(&YamlValue::Number(YamlNumber::NegInt(i64::MAX))),
        Ok(Value::Uint(9223372036854775807))
    );
    assert_eq!(
        yaml.to_value(&YamlValue::Sequence(vec![YamlValue::Number(YamlNumber::NegInt(3))])),
        Ok(Value::Array(vec![Value::Uint(3)]))
    );
}
