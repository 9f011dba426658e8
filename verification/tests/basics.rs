use nest::entries::find;
use nest::files::{FileState, Files};
use nest::float::{is_infinite, is_nan};
use nest::order::text_less;
use nest::error::ReadFailure;
use nest::value::Value;

#[test]
fn float_bits_of_nan_are_nan() {
    assert!(is_nan(f64::NAN.to_bits()));
    assert!(is_nan(0x7ff0_0000_0000_0001));
    assert!(is_nan(0xfff8_0000_0000_0000));
    assert!(!is_nan(f64::INFINITY.to_bits()));
    assert!(!is_nan(1.5f64.to_bits()));
    assert!(!is_nan(0));
}

#[test]
fn float_bits_of_infinity_are_infinite() {
    assert!(is_infinite(f64::INFINITY.to_bits()));
    assert!(is_infinite(f64::NEG_INFINITY.to_bits()));
    assert!(is_infinite(0x7ff0_0000_0000_0000));
    assert!(!is_infinite(f64::NAN.to_bits()));
    assert!(!is_infinite(f64::MAX.to_bits()));
    assert!(!is_infinite(0));
}

#[test]
fn texts_are_ordered_character_by_character() {
    assert!(text_less("a", "b"));
    assert!(!text_less("b", "a"));
    assert!(!text_less("a", "a"));
    assert!(text_less("", "a"));
    assert!(!text_less("a", ""));
    assert!(!text_less("", ""));
    assert!(text_less("a", "ab"));
    assert!(text_less("ab", "b"));
    assert!(text_less("Z", "a"));
    assert!(text_less("z", "é"));
    assert!(text_less("hello", "world"));
}

#[test]
fn text_order_is_the_order_of_strings() {
    let texts = ["", "a", "ab", "b", "Z", "é", "zz", "hello", "world", "\u{10000}", "\u{ffff}"];
    for a in texts.iter() {
        for b in texts.iter() {
            assert_eq!(text_less(a, b), a < b);
        }
    }
}

#[test]
fn find_gives_the_first_entry_of_a_name() {
    let entries = vec![
        ("a".to_string(), 1),
        ("b".to_string(), 2),
        ("a".to_string(), 3),
    ];
    assert_eq!(find(&entries, "a"), Some(0));
    assert_eq!(find(&entries, "b"), Some(1));
    assert_eq!(find(&entries, "c"), None);
    assert_eq!(find(&Vec::<(String, u8)>::new(), "a"), None);
}

#[test]
fn value_is_object_only_for_objects() {
    assert!(Value::Object(vec![]).is_object());
    assert!(!Value::Array(vec![]).is_object());
    assert!(!Value::Null.is_object());
    assert!(!Value::String("{}".to_string()).is_object());
}

#[test]
fn value_as_object_gives_the_members() {
    let members = vec![("a".to_string(), Value::Uint(1))];
    assert_eq!(Value::Object(members.clone()).as_object(), Some(&members));
    assert_eq!(Value::Uint(1).as_object(), None);
}

#[test]
fn value_clone_is_equal() {
    let value = Value::Object(vec![
        ("a".to_string(), Value::Array(vec![Value::Null, Value::Int(-1)])),
        ("b".to_string(), Value::Float(1.5f64.to_bits())),
    ]);
    assert_eq!(value.clone(), value);
}

#[test]
fn files_start_empty() {
    let files = Files::new();
    assert_eq!(files.get("a"), None);
    assert_eq!(files.read("a"), Err(ReadFailure::NotFound));
    assert!(files.written().is_empty());
}

#[test]
fn files_read_what_was_loaded() {
    let mut files = Files::new();
    files.load("a".to_string(), FileState::Text("one".to_string()));
    files.load("b".to_string(), FileState::Unreadable("denied".to_string()));
    assert_eq!(files.read("a").unwrap(), "one");
    assert_eq!(files.read("b"), Err(ReadFailure::Other("denied".to_string())));
    assert_eq!(files.read("c"), Err(ReadFailure::NotFound));
    assert!(files.written().is_empty());
}

#[test]
fn files_write_replaces_and_is_noted() {
    let mut files = Files::new();
    files.load("a".to_string(), FileState::Text("one".to_string()));
    files.write("b".to_string(), "two".to_string());
    files.write("a".to_string(), "three".to_string());
    files.write("b".to_string(), "four".to_string());
    assert_eq!(files.read("a").unwrap(), "three");
    assert_eq!(files.read("b").unwrap(), "four");
    assert_eq!(files.get("b"), Some(&FileState::Text("four".to_string())));
    assert_eq!(files.written(), &vec!["b".to_string(), "a".to_string(), "b".to_string()]);
}

#[test]
fn files_load_after_load_keeps_the_later_state() {
    let mut files = Files::new();
    files.load("a".to_string(), FileState::Unreadable("denied".to_string()));
    files.load("a".to_string(), FileState::Text("one".to_string()));
    assert_eq!(files.read("a").unwrap(), "one");
}
