use nest::files::{FileState, Files};
use nest::source::hjson::HjsonValue;
use nest::source::json::JsonValue;
use nest::source::toml_format::TomlValue;
use nest::source::yaml::YamlValue;
use nest::source::{Hjson, Json, Toml, Yaml};
use nest::store::{get_in_value, set_in_value};
use nest::{Path, Schema, Source, Store, Value};

fn path(segments: &[&str]) -> Path {
    Path::from(segments.iter().map(|s| s.to_string()).collect::<Vec<String>>())
}

fn object(members: Vec<(&str, Value)>) -> Value {
    Value::Object(members.into_iter().map(|(k, v)| (k.to_string(), v)).collect())
}

fn string(text: &str) -> Value {
    Value::String(text.to_string())
}

/// A value of every kind but null, signed integers from zero up and unsigned
/// integers, which not every format gives back as they were.
fn sample() -> Value {
    object(vec![
        ("b", Value::Bool(true)),
        ("i", Value::Int(-5)),
        ("f", Value::Float(1.5f64.to_bits())),
        ("s", string("hello")),
        ("a", Value::Array(vec![Value::Int(-1), string("x"), Value::Array(vec![])])),
        ("o", object(vec![("z", Value::Bool(false)), ("y", object(vec![]))])),
    ])
}

#[test]
fn json_gives_back_what_it_was_given() {
    let json = Json {};
    let value = object(vec![("n", Value::Null), ("u", Value::Uint(5)), ("rest", sample())]);
    assert_eq!(json.to_value(&json.from_value(&value).unwrap()), value);
}

#[test]
fn hjson_gives_back_what_it_was_given() {
    let hjson = Hjson {};
    let value = object(vec![
        ("n", Value::Null),
        ("u", Value::Uint(5)),
        ("p", Value::Int(5)),
        ("rest", sample()),
    ]);
    assert_eq!(hjson.to_value(&hjson.from_value(&value).unwrap()), value);
}

#[test]
fn toml_gives_back_what_it_was_given() {
    let toml = Toml {};
    let value = object(vec![
        ("u", Value::Uint(5)),
        ("m", Value::Uint(i64::MAX as u64)),
        ("rest", sample()),
    ]);
    assert_eq!(toml.to_value(&toml.from_value(&value).unwrap()), value);
}

#[test]
fn yaml_gives_back_what_it_was_given() {
    let yaml = Yaml {};
    let value = object(vec![
        ("n", Value::Null),
        ("u", Value::Uint(5)),
        ("nan", Value::Float(f64::NAN.to_bits())),
        ("rest", sample()),
    ]);
    assert_eq!(yaml.to_value(&yaml.from_value(&value)), Ok(value));
}

#[test]
fn every_format_gives_back_through_its_text_what_it_was_given() {
    let value = sample();
    for source in [Source::Hjson, Source::Json, Source::Toml, Source::Yaml] {
        let text = source.encode("f", &value).unwrap();
        assert_eq!(source.decode("f", &text), Ok(value.clone()));
    }
}

#[test]
fn what_was_put_at_a_path_lies_there() {
    for start in [sample(), Value::Null, object(vec![])] {
        for p in [vec![], vec!["o"], vec!["o", "z"], vec!["new", "deep", "er"], vec!["s", "t"]] {
            let whole = set_in_value(start.clone(), path(&p), string("put")).unwrap();
            assert_eq!(get_in_value(path(&p), whole), Ok(string("put")));
        }
    }
}

#[test]
fn putting_at_a_path_leaves_the_other_members_alone() {
    let start = sample();
    let whole = set_in_value(start.clone(), path(&["o", "z"]), string("put")).unwrap();
    for other in ["b", "i", "f", "s", "a"] {
        assert_eq!(
            get_in_value(path(&[other]), whole.clone()),
            get_in_value(path(&[other]), start.clone())
        );
    }
    assert_eq!(get_in_value(path(&["o", "y"]), whole), Ok(object(vec![])));
}

#[test]
fn putting_inside_nothing_makes_exactly_the_objects_that_lead_to_the_value() {
    let expected = object(vec![("a", object(vec![("b", object(vec![("c", Value::Uint(1))]))]))]);
    for start in [object(vec![]), Value::Null, Value::Uint(7), Value::Array(vec![Value::Null])] {
        assert_eq!(set_in_value(start, path(&["a", "b", "c"]), Value::Uint(1)), Ok(expected.clone()));
    }
}

fn two_files() -> Store {
    Store::new(
        "r".to_string(),
        Schema::Directory(vec![
            ("a".to_string(), Schema::Source(Source::Json)),
            ("b".to_string(), Schema::Source(Source::Json)),
        ]),
    )
}

#[test]
fn reading_depends_on_no_file_but_those_below() {
    let store = two_files();
    let mut first = Files::new();
    first.load("r/a.json".to_string(), FileState::Text("{\"x\": 1}".to_string()));
    first.load("r/b.json".to_string(), FileState::Text("{\"y\": 2}".to_string()));
    let mut second = Files::new();
    second.load("r/a.json".to_string(), FileState::Text("{\"x\": 1}".to_string()));
    second.load("r/b.json".to_string(), FileState::Unreadable("denied".to_string()));
    second.load("r/c.json".to_string(), FileState::Text("3".to_string()));
    assert_eq!(store.sources(&path(&["a", "x"])), Ok(vec!["r/a.json".to_string()]));
    assert_eq!(store.get(&path(&["a", "x"]), &first), store.get(&path(&["a", "x"]), &second));
    assert_eq!(store.get(&path(&["a"]), &first), store.get(&path(&["a"]), &second));
}

#[test]
fn writing_changes_no_file_but_those_below() {
    let store = two_files();
    let mut files = Files::new();
    files.load("r/a.json".to_string(), FileState::Text("{\"x\": 1}".to_string()));
    files.load("r/b.json".to_string(), FileState::Text("{\"y\": 2}".to_string()));
    let before = store.get(&path(&["b"]), &files);
    assert_eq!(store.set(&path(&["a", "x"]), &Value::Uint(9), &mut files), Ok(()));
    assert_eq!(files.get("r/b.json"), Some(&FileState::Text("{\"y\": 2}".to_string())));
    assert_eq!(store.get(&path(&["b"]), &files), before);
    assert_eq!(files.written(), &vec!["r/a.json".to_string()]);
}

#[test]
fn reading_below_a_sub_store_is_reading_with_the_path_in_front() {
    let world = Schema::Directory(vec![("world".to_string(), Schema::Source(Source::Json))]);
    let store =
        Store::new("/data".to_string(), Schema::Directory(vec![("hello".to_string(), world)]));
    let mut files = Files::new();
    files.load(
        "/data/hello/world.json".to_string(),
        FileState::Text("{\"nest\": {\"egg\": 1}}".to_string()),
    );
    let sub = store.sub(&path(&["hello"])).unwrap();
    assert_eq!(
        sub.get(&path(&["world", "nest"]), &files),
        store.get(&path(&["hello", "world", "nest"]), &files)
    );
    assert_eq!(sub.get(&path(&[]), &files), store.get(&path(&["hello"]), &files));
    assert_eq!(
        sub.get(&path(&["world", "nest", "none"]), &files),
        store.get(&path(&["hello", "world", "nest", "none"]), &files)
    );
}

#[test]
fn value_from_gives_back_what_json_try_from_was_given() {
    let value = object(vec![("n", Value::Null), ("u", Value::Uint(5)), ("rest", sample())]);
    let document = JsonValue::try_from(value.clone()).unwrap();
    assert_eq!(Value::from(document), value);
    assert_eq!(Value::from(JsonValue::try_from(Value::Int(5)).unwrap()), Value::Uint(5));
}

#[test]
fn value_from_gives_back_what_hjson_try_from_was_given() {
    let value = object(vec![
        ("n", Value::Null),
        ("u", Value::Uint(5)),
        ("i", Value::Int(5)),
        ("rest", sample()),
    ]);
    let document = HjsonValue::try_from(value.clone()).unwrap();
    assert_eq!(Value::from(document), value);
}

#[test]
fn value_from_gives_back_what_toml_try_from_was_given() {
    let value = object(vec![
        ("u", Value::Uint(5)),
        ("m", Value::Uint(i64::MAX as u64)),
        ("rest", sample()),
    ]);
    let document = TomlValue::try_from(value.clone()).unwrap();
    assert_eq!(Value::from(document), value);
    assert_eq!(Value::from(TomlValue::try_from(Value::Int(5)).unwrap()), Value::Uint(5));
}

#[test]
fn value_try_from_gives_back_what_yaml_from_was_given() {
    let value = object(vec![("n", Value::Null), ("u", Value::Uint(5)), ("rest", sample())]);
    let document = YamlValue::from(value.clone());
    assert_eq!(Value::try_from(document), Ok(value));
}
