use nest::files::{FileState, Files};
use nest::{Path, Schema, Store, Value};

fn path(segments: &[&str]) -> Path {
    Path::from(segments.iter().map(|s| s.to_string()).collect::<Vec<String>>())
}

fn object(members: Vec<(&str, Value)>) -> Value {
    Value::Object(members.into_iter().map(|(k, v)| (k.to_string(), v)).collect())
}

fn string(text: &str) -> Value {
    Value::String(text.to_string())
}

fn hello_world_schema() -> Schema {
    Schema::try_from(object(vec![("hello", object(vec![("world", string("json"))]))])).unwrap()
}

fn text_of(files: &Files, file: &str) -> String {
    match files.get(file) {
        Some(FileState::Text(text)) => text.clone(),
        other => panic!("no text at {}: {:?}", file, other),
    }
}

#[test]
fn get_simple() {
    let mut files = Files::new();
    files.load(
        "/data/hello/world.json".to_string(),
        FileState::Text(
            r#"
            {
                "nest": true
            }
        "#
            .to_string(),
        ),
    );

    let schema = hello_world_schema();
    let store = Store::new("/data".to_string(), schema);

    assert_eq!(store.get(&path(&["hello", "world", "nest"]), &files).unwrap(), Value::Bool(true));

    assert_eq!(
        store.get(&path(&["hello", "world"]), &files).unwrap(),
        object(vec![("nest", Value::Bool(true))]),
    );

    assert_eq!(
        store.get(&path(&["hello"]), &files).unwrap(),
        object(vec![("world", object(vec![("nest", Value::Bool(true))]))]),
    );

    assert_eq!(
        store.get(&path(&[]), &files).unwrap(),
        object(vec![("hello", object(vec![("world", object(vec![("nest", Value::Bool(true))]))]))]),
    );
}

#[test]
fn set_simple() {
    let mut files = Files::new();
    files.load(
        "/data/hello/world.json".to_string(),
        FileState::Text(
            r#"
            {
                "nest": 0
            }
        "#
            .to_string(),
        ),
    );

    let schema = hello_world_schema();
    let store = Store::new("/data".to_string(), schema);

    assert_eq!(
        store.set(&path(&["hello", "world", "nest"]), &Value::Uint(1), &mut files).unwrap(),
        (),
    );
    assert_eq!(store.get(&path(&["hello", "world", "nest"]), &files).unwrap(), Value::Uint(1));

    assert_eq!(
        store
            .set(&path(&["hello", "world"]), &object(vec![("nest", Value::Uint(2))]), &mut files)
            .unwrap(),
        (),
    );
    assert_eq!(
        store.get(&path(&["hello", "world"]), &files).unwrap(),
        object(vec![("nest", Value::Uint(2))]),
    );

    assert_eq!(
        store
            .set(
                &path(&["hello"]),
                &object(vec![("world", object(vec![("nest", Value::Uint(3))]))]),
                &mut files
            )
            .unwrap(),
        (),
    );
    assert_eq!(
        store.get(&path(&["hello"]), &files).unwrap(),
        object(vec![("world", object(vec![("nest", Value::Uint(3))]))]),
    );

    assert_eq!(
        store
            .set(
                &path(&[]),
                &object(vec![(
                    "hello",
                    object(vec![("world", object(vec![("nest", Value::Uint(4))]))])
                )]),
                &mut files
            )
            .unwrap(),
        ()
    );
    assert_eq!(
        store.get(&path(&[]), &files).unwrap(),
        object(vec![("hello", object(vec![("world", object(vec![("nest", Value::Uint(4))]))]))]),
    );
}

#[test]
fn set_from_empty() {
    let expected = r#"{
  "nest": true
}
"#;

    let mut files_0 = Files::new();
    let store = Store::new("/data".to_string(), hello_world_schema());
    assert_eq!(
        store.set(&path(&["hello", "world", "nest"]), &Value::Bool(true), &mut files_0).unwrap(),
        (),
    );
    assert_eq!(text_of(&files_0, "/data/hello/world.json"), expected);

    let mut files_1 = Files::new();
    let store = Store::new("/data".to_string(), hello_world_schema());
    assert_eq!(
        store
            .set(
                &path(&["hello", "world"]),
                &object(vec![("nest", Value::Bool(true))]),
                &mut files_1
            )
            .unwrap(),
        (),
    );
    assert_eq!(text_of(&files_1, "/data/hello/world.json"), expected);

    let mut files_2 = Files::new();
    let store = Store::new("/data".to_string(), hello_world_schema());
    assert_eq!(
        store
            .set(
                &path(&["hello"]),
                &object(vec![("world", object(vec![("nest", Value::Bool(true))]))]),
                &mut files_2
            )
            .unwrap(),
        (),
    );
    assert_eq!(text_of(&files_2, "/data/hello/world.json"), expected);

    let mut files_3 = Files::new();
    let store = Store::new("/data".to_string(), hello_world_schema());
    assert_eq!(
        store
            .set(
                &path(&[]),
                &object(vec![(
                    "hello",
                    object(vec![("world", object(vec![("nest", Value::Bool(true))]))])
                )]),
                &mut files_3
            )
            .unwrap(),
        (),
    );
    assert_eq!(text_of(&files_3, "/data/hello/world.json"), expected);
}
