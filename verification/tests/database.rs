use nest::database::Database;
use nest::files::{FileState, Files};
use nest::{Error, Path, Schema, Source, Store, Value};

fn strings(segments: &[&str]) -> Vec<String> {
    segments.iter().map(|s| s.to_string()).collect()
}

fn hello_world() -> Database {
    let world = Schema::Directory(vec![("world".to_string(), Schema::Source(Source::Json))]);
    let schema = Schema::Directory(vec![("hello".to_string(), world)]);
    Database::new(Store::new("/data".to_string(), schema))
}

#[test]
fn database_gets_and_sets_like_its_store() {
    let database = hello_world();
    let mut files = Files::new();
    assert_eq!(
        database.set(strings(&["hello", "world", "nest"]), &Value::Bool(true), &mut files),
        Ok(())
    );
    assert_eq!(
        files.get("/data/hello/world.json"),
        Some(&FileState::Text("{\n  \"nest\": true\n}\n".to_string()))
    );
    assert_eq!(database.get(strings(&["hello", "world", "nest"]), &files), Ok(Value::Bool(true)));
    assert_eq!(
        database.get(strings(&["a", "b"]), &files),
        Err(Error::SchemaNotFound { path: Path::from(strings(&["a", "b"])) })
    );
}

#[test]
fn database_walk_goes_down_the_schema() {
    let database = hello_world();
    let below = database.walk(strings(&["hello", "world", "nest"])).unwrap();
    let mut files = Files::new();
    files.load("/data/hello/world.json".to_string(), FileState::Text("{\"nest\": 7}".to_string()));
    assert_eq!(below.get(strings(&["nest"]), &files), Ok(Value::Uint(7)));
    assert_eq!(database.walk(strings(&["a"])), None);
}
