use nest::files::{FileState, Files};
use nest::{Path, Schema, Store, Value};

fn path(segments: &[&str]) -> Path {
    Path::from(segments.iter().map(|s| s.to_string()).collect::<Vec<String>>())
}

fn schema_of_format(format: &str) -> Schema {
    let world = Value::Object(vec![("world".to_string(), Value::String(format.to_string()))]);
    Schema::try_from(Value::Object(vec![("hello".to_string(), world)])).unwrap()
}

fn text_of(files: &Files, file: &str) -> String {
    match files.get(file) {
        Some(FileState::Text(text)) => text.clone(),
        other => panic!("no text at {}: {:?}", file, other),
    }
}

#[test]
fn hjson() {
    let mut files = Files::new();
    files.load(
        "/data/hello/world.hjson".to_string(),
        FileState::Text(
            r#"{
  "nest": true
}"#
            .to_string(),
        ),
    );

    let store = Store::new("/data".to_string(), schema_of_format("hjson"));

    assert_eq!(store.get(&path(&["hello", "world", "nest"]), &files).unwrap(), Value::Bool(true));

    assert_eq!(
        store.set(&path(&["hello", "world", "nest"]), &Value::Bool(false), &mut files).unwrap(),
        (),
    );

    assert_eq!(
        text_of(&files, "/data/hello/world.hjson"),
        r#"{
  nest: false
}
"#
    );
}

#[test]
fn yaml() {
    let mut files = Files::new();
    files.load(
        "/data/hello/world.yaml".to_string(),
        FileState::Text(
            r#"
nest: true
"#
            .to_string(),
        ),
    );

    let store = Store::new("/data".to_string(), schema_of_format("yaml"));

    assert_eq!(store.get(&path(&["hello", "world", "nest"]), &files).unwrap(), Value::Bool(true));

    assert_eq!(
        store.set(&path(&["hello", "world", "nest"]), &Value::Bool(false), &mut files).unwrap(),
        (),
    );

    assert_eq!(
        text_of(&files, "/data/hello/world.yaml"),
        r#"---
nest: false
"#
    );
}

#[test]
fn toml() {
    let mut files = Files::new();
    files.load(
        "/data/hello/world.toml".to_string(),
        FileState::Text(
            r#"
nest = true
"#
            .to_string(),
        ),
    );

    let store = Store::new("/data".to_string(), schema_of_format("toml"));

    assert_eq!(store.get(&path(&["hello", "world", "nest"]), &files).unwrap(), Value::Bool(true));

    assert_eq!(
        store.set(&path(&["hello", "world", "nest"]), &Value::Bool(false), &mut files).unwrap(),
        (),
    );

    assert_eq!(
        text_of(&files, "/data/hello/world.toml"),
        r#"nest = false
"#
    );
}
