use nest::error::{Fault, ReadFailure};
use nest::files::{FileState, Files};
use nest::store::{get_in_schema, get_in_value, join_root, set_in_schema, set_in_value};
use nest::store::traverse_schema;
use nest::{Error, Path, Schema, Source, Store, Value};

fn path(segments: &[&str]) -> Path {
    Path::from(segments.iter().map(|s| s.to_string()).collect::<Vec<String>>())
}

fn object(members: Vec<(&str, Value)>) -> Value {
    Value::Object(members.into_iter().map(|(k, v)| (k.to_string(), v)).collect())
}

fn string(text: &str) -> Value {
    Value::String(text.to_string())
}

fn directory(children: Vec<(&str, Schema)>) -> Schema {
    Schema::Directory(children.into_iter().map(|(k, v)| (k.to_string(), v)).collect())
}

fn hello_world() -> Store {
    Store::new(
        "/data".to_string(),
        directory(vec![("hello", directory(vec![("world", Schema::Source(Source::Json))]))]),
    )
}

fn with_text(file: &str, text: &str) -> Files {
    let mut files = Files::new();
    files.load(file.to_string(), FileState::Text(text.to_string()));
    files
}

fn text_of(files: &Files, file: &str) -> String {
    match files.get(file) {
        Some(FileState::Text(text)) => text.clone(),
        other => panic!("no text at {}: {:?}", file, other),
    }
}

#[test]
fn join_root_puts_a_slash_between_root_and_segments() {
    assert_eq!(join_root("/data", &path(&["hello", "world"])), "/data/hello/world");
    assert_eq!(join_root("data", &path(&["hello"])), "data/hello");
}

#[test]
fn join_root_adds_no_second_slash() {
    assert_eq!(join_root("/data/", &path(&["hello"])), "/data/hello");
    assert_eq!(join_root("/", &path(&["hello"])), "/hello");
}

#[test]
fn join_root_without_segments_is_the_root() {
    assert_eq!(join_root("/data", &path(&[])), "/data");
    assert_eq!(join_root("/data/", &path(&[])), "/data/");
    assert_eq!(join_root("", &path(&[])), "");
}

#[test]
fn join_root_with_an_empty_root_is_the_segments() {
    assert_eq!(join_root("", &path(&["hello", "world"])), "hello/world");
}

#[test]
fn traverse_schema_stops_at_a_file() {
    let store_schema =
        directory(vec![("hello", directory(vec![("world", Schema::Source(Source::Json))]))]);
    let (rest, stop) =
        traverse_schema(path(&["hello", "world", "nest", "egg"]), &store_schema).unwrap();
    assert_eq!(rest, path(&["nest", "egg"]));
    assert_eq!(stop, &Schema::Source(Source::Json));
}

#[test]
fn traverse_schema_stops_in_the_directory_that_the_path_leads_to() {
    let world = directory(vec![("world", Schema::Source(Source::Json))]);
    let store_schema = directory(vec![("hello", world.clone())]);
    let (rest, stop) = traverse_schema(path(&["hello"]), &store_schema).unwrap();
    assert_eq!(rest, path(&[]));
    assert_eq!(stop, &world);
    let (rest, stop) = traverse_schema(path(&[]), &store_schema).unwrap();
    assert_eq!(rest, path(&[]));
    assert_eq!(stop, &store_schema);
}

#[test]
fn traverse_schema_does_not_stop_without_a_child() {
    let store_schema =
        directory(vec![("hello", directory(vec![("world", Schema::Source(Source::Json))]))]);
    assert_eq!(traverse_schema(path(&["invalid", "path"]), &store_schema), None);
    assert_eq!(traverse_schema(path(&["hello", "moon"]), &store_schema), None);
}

#[test]
fn traverse_schema_of_a_file_uses_up_nothing() {
    let leaf = Schema::Source(Source::Toml);
    let (rest, stop) = traverse_schema(path(&["a", "b"]), &leaf).unwrap();
    assert_eq!(rest, path(&["a", "b"]));
    assert_eq!(stop, &leaf);
}

#[test]
fn get_in_value_of_the_empty_path_is_the_value() {
    for value in [Value::Null, Value::Uint(5), Value::Array(vec![]), object(vec![])] {
        assert_eq!(get_in_value(path(&[]), value.clone()), Ok(value));
    }
}

#[test]
fn get_in_value_follows_the_members() {
    let value = object(vec![
        ("a", object(vec![("b", Value::Array(vec![Value::Uint(1)])), ("c", Value::Null)])),
        ("d", Value::Bool(true)),
    ]);
    assert_eq!(
        get_in_value(path(&["a", "b"]), value.clone()),
        Ok(Value::Array(vec![Value::Uint(1)]))
    );
    assert_eq!(get_in_value(path(&["a", "c"]), value.clone()), Ok(Value::Null));
    assert_eq!(get_in_value(path(&["d"]), value), Ok(Value::Bool(true)));
}

#[test]
fn get_in_value_of_a_missing_member_is_not_found() {
    let value = object(vec![("a", object(vec![("b", Value::Uint(1))]))]);
    assert_eq!(
        get_in_value(path(&["x"]), value.clone()),
        Err(Error::ValueNotFound { path: path(&["x"]) })
    );
    assert_eq!(
        get_in_value(path(&["a", "x", "y"]), value),
        Err(Error::ValueNotFound { path: path(&["x", "y"]) })
    );
}

#[test]
fn get_in_value_below_what_is_no_object_is_not_found() {
    let value = object(vec![("a", Value::Uint(1)), ("b", Value::Array(vec![Value::Null]))]);
    assert_eq!(
        get_in_value(path(&["a", "x"]), value.clone()),
        Err(Error::ValueNotFound { path: path(&["x"]) })
    );
    assert_eq!(
        get_in_value(path(&["b", "0"]), value),
        Err(Error::ValueNotFound { path: path(&["0"]) })
    );
    assert_eq!(
        get_in_value(path(&["x"]), Value::Null),
        Err(Error::ValueNotFound { path: path(&["x"]) })
    );
}

#[test]
fn set_in_value_of_the_empty_path_replaces_the_value() {
    assert_eq!(
        set_in_value(object(vec![("a", Value::Uint(1))]), path(&[]), Value::Uint(9)),
        Ok(Value::Uint(9))
    );
}

#[test]
fn set_in_value_replaces_one_member_and_keeps_the_others_in_place() {
    let value = object(vec![("a", Value::Uint(1)), ("b", Value::Uint(2)), ("c", Value::Uint(3))]);
    assert_eq!(
        set_in_value(value, path(&["b"]), Value::Uint(9)),
        Ok(object(vec![("a", Value::Uint(1)), ("b", Value::Uint(9)), ("c", Value::Uint(3))]))
    );
}

#[test]
fn set_in_value_adds_a_new_member_last() {
    let value = object(vec![("a", Value::Uint(1))]);
    assert_eq!(
        set_in_value(value, path(&["b"]), Value::Uint(2)),
        Ok(object(vec![("a", Value::Uint(1)), ("b", Value::Uint(2))]))
    );
}

#[test]
fn set_in_value_goes_down_along_the_path() {
    let value = object(vec![
        ("a", object(vec![("b", Value::Uint(1)), ("c", Value::Uint(2))])),
        ("d", Value::Uint(3)),
    ]);
    assert_eq!(
        set_in_value(value, path(&["a", "c"]), Value::Bool(true)),
        Ok(object(vec![
            ("a", object(vec![("b", Value::Uint(1)), ("c", Value::Bool(true))])),
            ("d", Value::Uint(3)),
        ]))
    );
}

#[test]
fn set_in_value_makes_the_objects_that_are_missing() {
    assert_eq!(
        set_in_value(object(vec![]), path(&["a", "b", "c"]), Value::Uint(1)),
        Ok(object(vec![("a", object(vec![("b", object(vec![("c", Value::Uint(1))]))]))]))
    );
    assert_eq!(
        set_in_value(object(vec![("x", Value::Null)]), path(&["a", "b"]), Value::Uint(1)),
        Ok(object(vec![("x", Value::Null), ("a", object(vec![("b", Value::Uint(1))]))]))
    );
}

#[test]
fn set_in_value_takes_what_is_no_object_for_an_empty_one() {
    assert_eq!(
        set_in_value(Value::Uint(5), path(&["a"]), Value::Uint(1)),
        Ok(object(vec![("a", Value::Uint(1))]))
    );
    assert_eq!(
        set_in_value(object(vec![("a", string("x"))]), path(&["a", "b"]), Value::Uint(1)),
        Ok(object(vec![("a", object(vec![("b", Value::Uint(1))]))]))
    );
}

#[test]
fn what_was_put_is_found() {
    let value = object(vec![("a", object(vec![("b", Value::Uint(1))])), ("d", Value::Uint(3))]);
    for p in [vec![], vec!["a"], vec!["a", "b"], vec!["a", "x", "y"], vec!["d", "e"]] {
        let whole = set_in_value(value.clone(), path(&p), string("new")).unwrap();
        assert_eq!(get_in_value(path(&p), whole), Ok(string("new")));
    }
}

#[test]
fn putting_leaves_other_members_alone() {
    let value = object(vec![("a", object(vec![("b", Value::Uint(1))])), ("d", Value::Uint(3))]);
    let whole = set_in_value(value.clone(), path(&["a", "x"]), string("new")).unwrap();
    assert_eq!(get_in_value(path(&["d"]), whole.clone()), Ok(Value::Uint(3)));
    assert_eq!(get_in_value(path(&["a", "b"]), whole), Ok(Value::Uint(1)));
}

#[test]
fn set_of_one_member_keeps_its_sibling_in_the_file() {
    let mut files = with_text("/data/hello/world.json", r#"{"a": 1, "b": 2}"#);
    let store = hello_world();
    assert_eq!(store.set(&path(&["hello", "world", "a"]), &Value::Uint(9), &mut files), Ok(()));
    assert_eq!(text_of(&files, "/data/hello/world.json"), "{\n  \"a\": 9,\n  \"b\": 2\n}\n");
    assert_eq!(
        store.get(&path(&["hello", "world"]), &files),
        Ok(object(vec![("a", Value::Uint(9)), ("b", Value::Uint(2))]))
    );
}

#[test]
fn get_gathers_the_files_below_a_directory() {
    let files = with_text("/data/hello/world.json", r#"{"nest": true}"#);
    let store = hello_world();
    assert_eq!(
        store.get(&path(&[]), &files),
        Ok(object(vec![("hello", object(vec![("world", object(vec![("nest", Value::Bool(true))]))]))]))
    );
    assert_eq!(
        store.get(&path(&["hello"]), &files),
        Ok(object(vec![("world", object(vec![("nest", Value::Bool(true))]))]))
    );
    assert_eq!(store.get(&path(&["hello", "world", "nest"]), &files), Ok(Value::Bool(true)));
}

#[test]
fn get_twice_gives_the_same() {
    let files = with_text("/data/hello/world.json", r#"{"nest": [1, 2.5, "x"]}"#);
    let store = hello_world();
    for p in [vec![], vec!["hello"], vec!["hello", "world", "nest"], vec!["no"]] {
        assert_eq!(store.get(&path(&p), &files), store.get(&path(&p), &files));
    }
}

#[test]
fn get_of_an_unknown_path_finds_no_schema() {
    let files = with_text("/data/hello/world.json", r#"{"nest": true}"#);
    let store = hello_world();
    assert_eq!(
        store.get(&path(&["invalid", "path"]), &files),
        Err(Error::SchemaNotFound { path: path(&["invalid", "path"]) })
    );
    assert_eq!(
        store.sources(&path(&["invalid", "path"])),
        Err(Error::SchemaNotFound { path: path(&["invalid", "path"]) })
    );
}

#[test]
fn set_of_an_unknown_path_finds_no_schema_and_writes_nothing() {
    let mut files = with_text("/data/hello/world.json", r#"{"nest": true}"#);
    let store = hello_world();
    assert_eq!(
        store.set(&path(&["invalid", "path"]), &Value::Uint(1), &mut files),
        Err(Error::SchemaNotFound { path: path(&["invalid", "path"]) })
    );
    assert!(files.written().is_empty());
    assert_eq!(text_of(&files, "/data/hello/world.json"), r#"{"nest": true}"#);
}

#[test]
fn set_of_what_is_no_object_at_a_directory_fails_and_writes_nothing() {
    let mut files = with_text("/data/hello/world.json", r#"{"nest": true}"#);
    let store = hello_world();
    assert_eq!(
        store.set(&path(&["hello"]), &Value::Uint(5), &mut files),
        Err(Error::ExpectedObjectForDirectory { path: path(&["hello"]) })
    );
    assert!(files.written().is_empty());
    assert_eq!(text_of(&files, "/data/hello/world.json"), r#"{"nest": true}"#);
    assert_eq!(
        store.set(&path(&[]), &object(vec![("hello", Value::Uint(5))]), &mut files),
        Err(Error::ExpectedObjectForDirectory { path: path(&["hello"]) })
    );
    assert!(files.written().is_empty());
}

#[test]
fn set_at_a_directory_leaves_alone_what_the_object_does_not_name() {
    let store = Store::new(
        "r".to_string(),
        directory(vec![
            ("a", Schema::Source(Source::Json)),
            ("b", Schema::Source(Source::Json)),
            ("c", Schema::Source(Source::Json)),
        ]),
    );
    let mut files = Files::new();
    files.load("r/a.json".to_string(), FileState::Text("1".to_string()));
    files.load("r/b.json".to_string(), FileState::Text("2".to_string()));
    let value = object(vec![("c", Value::Uint(30)), ("x", Value::Uint(0)), ("a", Value::Uint(10))]);
    assert_eq!(store.set(&path(&[]), &value, &mut files), Ok(()));
    assert_eq!(text_of(&files, "r/a.json"), "10\n");
    assert_eq!(text_of(&files, "r/b.json"), "2");
    assert_eq!(text_of(&files, "r/c.json"), "30\n");
    assert_eq!(files.get("r/x.json"), None);
    assert_eq!(files.written(), &vec!["r/a.json".to_string(), "r/c.json".to_string()]);
}

#[test]
fn set_stops_at_the_first_child_that_fails() {
    let store = Store::new(
        "r".to_string(),
        directory(vec![
            ("a", Schema::Source(Source::Json)),
            ("b", Schema::Source(Source::Json)),
            ("c", Schema::Source(Source::Json)),
        ]),
    );
    let mut files = Files::new();
    let value = object(vec![
        ("a", Value::Uint(1)),
        ("b", Value::Float(f64::NAN.to_bits())),
        ("c", Value::Uint(3)),
    ]);
    assert_eq!(
        store.set(&path(&[]), &value, &mut files),
        Err(Error::Serialize {
            path: "r/b.json".to_string(),
            fault: Fault::Nan,
            detail: String::new()
        })
    );
    assert_eq!(text_of(&files, "r/a.json"), "1\n");
    assert_eq!(files.get("r/b.json"), None);
    assert_eq!(files.get("r/c.json"), None);
    assert_eq!(files.written(), &vec!["r/a.json".to_string()]);
}

#[test]
fn set_of_a_file_that_is_not_there_writes_the_objects_that_lead_to_the_value() {
    let store = hello_world();
    let mut files = Files::new();
    assert_eq!(
        store.set(&path(&["hello", "world", "a", "b"]), &Value::Uint(1), &mut files),
        Ok(())
    );
    assert_eq!(
        text_of(&files, "/data/hello/world.json"),
        "{\n  \"a\": {\n    \"b\": 1\n  }\n}\n"
    );
    assert_eq!(files.written(), &vec!["/data/hello/world.json".to_string()]);
}

#[test]
fn set_of_a_file_that_cannot_be_read_fails() {
    let store = hello_world();
    let mut files = Files::new();
    files.load(
        "/data/hello/world.json".to_string(),
        FileState::Unreadable("permission denied".to_string()),
    );
    assert_eq!(
        store.set(&path(&["hello", "world", "a"]), &Value::Uint(1), &mut files),
        Err(Error::ReadSource {
            path: "/data/hello/world.json".to_string(),
            cause: ReadFailure::Other("permission denied".to_string())
        })
    );
    assert!(files.written().is_empty());
}

#[test]
fn set_of_a_file_with_bad_text_fails_and_leaves_the_file() {
    let store = hello_world();
    let mut files = with_text("/data/hello/world.json", "{");
    let outcome = store.set(&path(&["hello", "world", "a"]), &Value::Uint(1), &mut files);
    match outcome {
        Err(Error::Deserialize { path, fault, detail }) => {
            assert_eq!(path, "/data/hello/world.json");
            assert_eq!(fault, Fault::Syntax);
            assert!(!detail.is_empty());
        }
        other => panic!("{:?}", other),
    }
    assert_eq!(text_of(&files, "/data/hello/world.json"), "{");
    assert!(files.written().is_empty());
}

#[test]
fn get_of_a_file_that_is_not_there_fails() {
    let store = hello_world();
    let files = Files::new();
    assert_eq!(
        store.get(&path(&["hello", "world"]), &files),
        Err(Error::ReadSource {
            path: "/data/hello/world.json".to_string(),
            cause: ReadFailure::NotFound
        })
    );
    assert_eq!(
        store.get(&path(&[]), &files),
        Err(Error::ReadSource {
            path: "/data/hello/world.json".to_string(),
            cause: ReadFailure::NotFound
        })
    );
}

#[test]
fn get_of_what_the_file_does_not_hold_finds_no_value() {
    let files = with_text("/data/hello/world.json", r#"{"nest": true}"#);
    let store = hello_world();
    assert_eq!(
        store.get(&path(&["hello", "world", "egg"]), &files),
        Err(Error::ValueNotFound { path: path(&["egg"]) })
    );
    assert_eq!(
        store.get(&path(&["hello", "world", "nest", "egg"]), &files),
        Err(Error::ValueNotFound { path: path(&["egg"]) })
    );
}

#[test]
fn get_of_yaml_with_a_key_that_is_no_string_fails() {
    let store = Store::new("r".to_string(), directory(vec![("a", Schema::Source(Source::Yaml))]));
    let files = with_text("r/a.yaml", "1: one\n");
    assert_eq!(
        store.get(&path(&["a"]), &files),
        Err(Error::Deserialize {
            path: "r/a.yaml".to_string(),
            fault: Fault::NonStringKey,
            detail: String::new()
        })
    );
}

#[test]
fn set_of_what_a_format_cannot_hold_fails() {
    let mut files = Files::new();
    assert_eq!(
        Source::Json.write("r/a", &Value::Float(f64::INFINITY.to_bits()), &mut files),
        Err(Error::Serialize {
            path: "r/a.json".to_string(),
            fault: Fault::Infinite,
            detail: String::new()
        })
    );
    assert_eq!(
        Source::Hjson.write("r/a", &Value::Float(f64::NAN.to_bits()), &mut files),
        Err(Error::Serialize {
            path: "r/a.hjson".to_string(),
            fault: Fault::Nan,
            detail: String::new()
        })
    );
    assert_eq!(
        Source::Toml.write("r/a", &object(vec![("a", Value::Null)]), &mut files),
        Err(Error::Serialize {
            path: "r/a.toml".to_string(),
            fault: Fault::Null,
            detail: String::new()
        })
    );
    assert!(files.written().is_empty());
}

#[test]
fn source_read_and_write_go_through_the_file_of_the_format() {
    let mut files = Files::new();
    assert_eq!(Source::Yaml.write("r/a", &object(vec![("n", Value::Int(-1))]), &mut files), Ok(()));
    assert_eq!(text_of(&files, "r/a.yaml"), "---\nn: -1\n");
    assert_eq!(Source::Yaml.read("r/a", &files), Ok(object(vec![("n", Value::Int(-1))])));
    assert_eq!(
        Source::Json.read("r/a", &files),
        Err(Error::ReadSource { path: "r/a.json".to_string(), cause: ReadFailure::NotFound })
    );
}

#[test]
fn sub_is_the_store_at_the_stop() {
    let store = hello_world();
    let sub = store.sub(&path(&["hello", "world"])).unwrap();
    assert_eq!(sub, Store::new("/data/hello/world".to_string(), Schema::Source(Source::Json)));
    assert_eq!(sub.root(), "/data/hello/world");
    let files = with_text("/data/hello/world.json", r#"{"nest": true}"#);
    assert_eq!(sub.get(&path(&["nest"]), &files), Ok(Value::Bool(true)));
    assert_eq!(sub.get(&path(&[]), &files), Ok(object(vec![("nest", Value::Bool(true))])));
    let hello = store.sub(&path(&["hello"])).unwrap();
    assert_eq!(
        hello,
        Store::new(
            "/data/hello".to_string(),
            directory(vec![("world", Schema::Source(Source::Json))])
        )
    );
    assert_eq!(hello.get(&path(&["world", "nest"]), &files), Ok(Value::Bool(true)));
}

#[test]
fn sub_drops_what_lies_inside_the_file() {
    let store = hello_world();
    assert_eq!(
        store.sub(&path(&["hello", "world", "nest"])),
        Ok(Store::new("/data/hello/world".to_string(), Schema::Source(Source::Json)))
    );
}

#[test]
fn sub_of_an_unknown_path_finds_no_schema() {
    let store = hello_world();
    assert_eq!(
        store.sub(&path(&["invalid"])),
        Err(Error::SchemaNotFound { path: path(&["invalid"]) })
    );
}

#[test]
fn sources_lists_the_files_below_the_stop() {
    let store = Store::new(
        "r".to_string(),
        directory(vec![
            ("a", Schema::Source(Source::Json)),
            ("b", directory(vec![
                ("c", Schema::Source(Source::Yaml)),
                ("d", Schema::Source(Source::Toml)),
            ])),
            ("e", Schema::Source(Source::Hjson)),
        ]),
    );
    assert_eq!(
        store.sources(&path(&[])),
        Ok(vec![
            "r/a.json".to_string(),
            "r/b/c.yaml".to_string(),
            "r/b/d.toml".to_string(),
            "r/e.hjson".to_string()
        ])
    );
    assert_eq!(
        store.sources(&path(&["b"])),
        Ok(vec!["r/b/c.yaml".to_string(), "r/b/d.toml".to_string()])
    );
    assert_eq!(store.sources(&path(&["b", "c", "x", "y"])), Ok(vec!["r/b/c.yaml".to_string()]));
}

#[test]
fn get_in_schema_and_set_in_schema_start_below_the_stop() {
    let leaf = Schema::Source(Source::Json);
    let mut files = Files::new();
    assert_eq!(
        set_in_schema(&leaf, "r", path(&["a", "b", "c"]), &Value::Uint(1), 2, &mut files),
        Ok(())
    );
    assert_eq!(text_of(&files, "r/a/b.json"), "{\n  \"c\": 1\n}\n");
    assert_eq!(get_in_schema(&leaf, "r", path(&["a", "b", "c"]), 2, &files), Ok(Value::Uint(1)));
    assert_eq!(
        get_in_schema(&leaf, "r", path(&["a", "b"]), 2, &files),
        Ok(object(vec![("c", Value::Uint(1))]))
    );
}

#[test]
fn a_store_whose_schema_is_a_file_keeps_everything_in_that_file() {
    let store = Store::new("/data/all".to_string(), Schema::Source(Source::Json));
    let mut files = Files::new();
    assert_eq!(store.set(&path(&["a"]), &string("x"), &mut files), Ok(()));
    assert_eq!(text_of(&files, "/data/all.json"), "{\n  \"a\": \"x\"\n}\n");
    assert_eq!(store.get(&path(&["a"]), &files), Ok(string("x")));
}
