use nest::source::{find_source, sources, FileSource, Hjson, Json, Toml, Yaml};
use nest::{Error, Schema, Source, Value};

fn object(members: Vec<(&str, Value)>) -> Value {
    Value::Object(members.into_iter().map(|(k, v)| (k.to_string(), v)).collect())
}

fn string(text: &str) -> Value {
    Value::String(text.to_string())
}

#[test]
fn schema_of_a_format_name_is_a_file() {
    assert_eq!(Schema::try_from(string("json")), Ok(Schema::Source(Source::Json)));
    assert_eq!(Schema::try_from(string("yaml")), Ok(Schema::Source(Source::Yaml)));
    assert_eq!(Schema::try_from(string("toml")), Ok(Schema::Source(Source::Toml)));
    assert_eq!(Schema::try_from(string("hjson")), Ok(Schema::Source(Source::Hjson)));
}

#[test]
fn schema_of_an_object_is_a_directory() {
    let value = object(vec![("hello", object(vec![("world", string("json"))]))]);
    assert_eq!(
        Schema::try_from(value),
        Ok(Schema::Directory(vec![(
            "hello".to_string(),
            Schema::Directory(vec![("world".to_string(), Schema::Source(Source::Json))])
        )]))
    );
    assert_eq!(Schema::try_from(object(vec![])), Ok(Schema::Directory(vec![])));
}

#[test]
fn schema_keeps_children_in_the_order_of_their_names() {
    let value = object(vec![
        ("b", string("json")),
        ("c", string("toml")),
        ("a", string("yaml")),
        ("B", string("hjson")),
    ]);
    assert_eq!(
        Schema::try_from(value),
        Ok(Schema::Directory(vec![
            ("B".to_string(), Schema::Source(Source::Hjson)),
            ("a".to_string(), Schema::Source(Source::Yaml)),
            ("b".to_string(), Schema::Source(Source::Json)),
            ("c".to_string(), Schema::Source(Source::Toml)),
        ]))
    );
}

#[test]
fn schema_of_a_repeated_name_keeps_the_later_member() {
    let value = Value::Object(vec![
        ("a".to_string(), string("json")),
        ("a".to_string(), string("yaml")),
    ]);
    assert_eq!(
        Schema::try_from(value),
        Ok(Schema::Directory(vec![("a".to_string(), Schema::Source(Source::Yaml))]))
    );
}

#[test]
fn schema_of_an_unknown_format_is_invalid() {
    assert_eq!(
        Schema::try_from(string("xml")),
        Err(Error::InvalidSchema { value: string("xml") })
    );
    assert_eq!(Schema::try_from(string("")), Err(Error::InvalidSchema { value: string("") }));
    assert_eq!(
        Schema::try_from(string("JSON")),
        Err(Error::InvalidSchema { value: string("JSON") })
    );
}

#[test]
fn schema_of_any_other_value_is_invalid() {
    for value in [
        Value::Null,
        Value::Bool(true),
        Value::Int(-1),
        Value::Uint(1),
        Value::Float(1.5f64.to_bits()),
        Value::Array(vec![string("json")]),
    ] {
        let expected = Err(Error::InvalidSchema { value: value.clone() });
        assert_eq!(Schema::try_from(value), expected);
    }
}

#[test]
fn schema_is_invalid_with_the_first_invalid_member() {
    let value = object(vec![
        ("a", string("json")),
        ("b", object(vec![("c", Value::Uint(5)), ("d", Value::Null)])),
        ("e", Value::Bool(false)),
    ]);
    assert_eq!(Schema::try_from(value), Err(Error::InvalidSchema { value: Value::Uint(5) }));
}

#[test]
fn schema_describe_reads_a_borrowed_value() {
    let value = object(vec![("a", string("toml"))]);
    assert_eq!(
        Schema::describe(&value),
        Ok(Schema::Directory(vec![("a".to_string(), Schema::Source(Source::Toml))]))
    );
}

#[test]
fn schema_clone_is_equal() {
    let schema =
        Schema::try_from(object(vec![("hello", object(vec![("world", string("json"))]))]))
            .unwrap();
    assert_eq!(schema.clone(), schema);
}

#[test]
fn the_formats_are_four() {
    assert_eq!(sources(), vec![Source::Hjson, Source::Json, Source::Toml, Source::Yaml]);
}

#[test]
fn a_format_is_found_by_its_name() {
    assert_eq!(find_source("hjson"), Some(Source::Hjson));
    assert_eq!(find_source("json"), Some(Source::Json));
    assert_eq!(find_source("toml"), Some(Source::Toml));
    assert_eq!(find_source("yaml"), Some(Source::Yaml));
    assert_eq!(find_source("yml"), None);
    assert_eq!(find_source(""), None);
}

#[test]
fn a_format_names_its_files() {
    assert_eq!(Source::Json.id(), "json");
    assert_eq!(Source::Hjson.id(), "hjson");
    assert_eq!(Source::Toml.id(), "toml");
    assert_eq!(Source::Yaml.id(), "yaml");
    assert_eq!(Source::Json.file_path("/data/hello/world"), "/data/hello/world.json");
    assert_eq!(Source::Yaml.file_path("a.b"), "a.b.yaml");
    assert_eq!(Source::Toml.file_path(""), ".toml");
}

#[test]
fn each_format_has_its_extension() {
    assert_eq!(Json {}.extension(), "json");
    assert_eq!(Hjson {}.extension(), "hjson");
    assert_eq!(Toml {}.extension(), "toml");
    assert_eq!(Yaml {}.extension(), "yaml");
}
