use nest::path::{parse_path, Path};

fn path(segments: &[&str]) -> Path {
    Path::from(segments.iter().map(|s| s.to_string()).collect::<Vec<String>>())
}

#[test]
fn path_len_counts_segments() {
    assert_eq!(path(&["hello", "world"]).len(), 2);
    assert_eq!(path(&[]).len(), 0);
}

#[test]
fn path_is_empty_only_without_segments() {
    assert!(path(&[]).is_empty());
    assert!(!path(&["hello"]).is_empty());
    assert!(!path(&[""]).is_empty());
}

#[test]
fn path_first_is_the_first_segment() {
    assert_eq!(path(&["hello", "world"]).first(), "hello");
}

#[test]
fn path_rest_drops_the_first_segment() {
    assert_eq!(path(&["hello", "world", "nest"]).rest().to_path(), "world/nest");
    assert!(path(&["hello"]).rest().is_empty());
}

#[test]
fn path_take_keeps_the_first_segments() {
    let whole = path(&["hello", "world", "nest"]);
    assert_eq!(whole.take(2).to_path(), "hello/world");
    assert!(whole.take(0).is_empty());
    assert_eq!(whole.take(3).to_path(), "hello/world/nest");
}

#[test]
fn path_skip_drops_the_first_segments() {
    let whole = path(&["hello", "world", "nest"]);
    assert_eq!(whole.skip(2).to_path(), "nest");
    assert_eq!(whole.skip(0).to_path(), "hello/world/nest");
    assert!(whole.skip(3).is_empty());
}

#[test]
fn path_append_adds_a_last_segment_and_leaves_the_path_alone() {
    let start = path(&["hello"]);
    let longer = start.append("world");
    assert_eq!(longer.len(), 2);
    assert_eq!(longer.to_path(), "hello/world");
    assert_eq!(start.len(), 1);
}

#[test]
fn path_to_path_joins_with_slashes() {
    assert_eq!(path(&[]).to_path(), "");
    assert_eq!(path(&["hello"]).to_path(), "hello");
    assert_eq!(path(&["hello", "world"]).to_path(), "hello/world");
    assert_eq!(path(&["a", "", "b"]).to_path(), "a//b");
}

#[test]
fn path_clone_has_the_same_segments() {
    let whole = path(&["hello", "world"]);
    assert_eq!(whole.clone().to_path(), "hello/world");
}

#[test]
fn parse_path_cuts_at_slashes() {
    assert_eq!(parse_path(&"hello/world/nest".to_string()), vec!["hello", "world", "nest"]);
    assert_eq!(parse_path(&"hello".to_string()), vec!["hello"]);
}

#[test]
fn parse_path_of_the_empty_text_is_the_empty_path() {
    assert_eq!(parse_path(&"".to_string()), Vec::<&str>::new());
}

#[test]
fn parse_path_keeps_empty_pieces() {
    assert_eq!(parse_path(&"/".to_string()), vec!["", ""]);
    assert_eq!(parse_path(&"a//b/".to_string()), vec!["a", "", "b", ""]);
    assert_eq!(parse_path(&"é/ü".to_string()), vec!["é", "ü"]);
}
