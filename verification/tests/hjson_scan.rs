use nest::error::Fault;
use nest::files::{FileState, Files};
use nest::source::hjson::{FromHjsonError, Hjson, IntoHjsonError};
use nest::source::hjson_scan::{refuse, refuse_string};
use nest::source::FileSource;
use nest::{Error, Path, Schema, Source, Store, Value};

fn fault_of(text: &str) -> Option<Fault> {
    match (Hjson {}).deserialize(text) {
        Err(FromHjsonError::Refused(fault)) => Some(fault),
        _ => None,
    }
}

#[test]
fn hjson_turns_down_a_whole_number_beyond_64_bits() {
    assert_eq!(fault_of("a: 18446744073709551616"), Some(Fault::NumberTooGreat));
    assert_eq!(fault_of("a: 99999999999999999999999\nb: 1"), Some(Fault::NumberTooGreat));
    assert_eq!(fault_of("a: -9223372036854775809"), Some(Fault::NumberTooGreat));
    assert_eq!(fault_of("[1, 18446744073709551616]"), Some(Fault::NumberTooGreat));
    assert_eq!(fault_of("{a: 18446744073709551616}"), Some(Fault::NumberTooGreat));
    assert_eq!(fault_of("a: 18446744073709551616 # more"), Some(Fault::NumberTooGreat));
    assert_eq!(
        Source::Hjson.decode("f.hjson", "a: 18446744073709551616"),
        Err(Error::Deserialize {
            path: "f.hjson".to_string(),
            fault: Fault::NumberTooGreat,
            detail: String::new()
        })
    );
}

#[test]
fn hjson_reads_the_greatest_whole_numbers() {
    let hjson = Hjson {};
    let document = hjson
        .deserialize("{\nu: 18446744073709551615\ni: -9223372036854775808\nz: 0\nf: 123456789012345678901234567890.5\n}")
        .unwrap();
    assert_eq!(
        hjson.to_value(&document),
        Value::Object(vec![
            ("u".to_string(), Value::Uint(u64::MAX)),
            ("i".to_string(), Value::Int(i64::MIN)),
            ("z".to_string(), Value::Uint(0)),
            ("f".to_string(), Value::Float(123456789012345678901234567890.5f64.to_bits())),
        ])
    );
}

#[test]
fn hjson_reads_long_digits_inside_a_word() {
    let hjson = Hjson {};
    let document = hjson.deserialize("{\na: 99999999999999999999999x\nb: x99999999999999999999999y\n}").unwrap();
    assert_eq!(
        hjson.to_value(&document),
        Value::Object(vec![
            ("a".to_string(), Value::String("99999999999999999999999x".to_string())),
            ("b".to_string(), Value::String("x99999999999999999999999y".to_string())),
        ])
    );
}

#[test]
fn hjson_turns_down_a_comment_that_is_not_closed() {
    assert_eq!(fault_of("a: 1\n/* never closed"), Some(Fault::CommentNotClosed));
    assert_eq!(fault_of("a: 1\n/*/"), Some(Fault::CommentNotClosed));
    assert_eq!(fault_of("/*"), Some(Fault::CommentNotClosed));
    assert_eq!(fault_of("/* a */ a: 1 /* b *"), Some(Fault::CommentNotClosed));
}

#[test]
fn hjson_reads_comments_that_are_closed() {
    let hjson = Hjson {};
    let document = hjson.deserialize("/* one */\n{\na: 1 /* two */\n/**/ b: 2 // three\n# four\n}").unwrap();
    assert_eq!(
        hjson.to_value(&document),
        Value::Object(vec![
            ("a".to_string(), Value::Uint(1)),
            ("b".to_string(), Value::Uint(2)),
        ])
    );
}

#[test]
fn hjson_turns_down_three_quotes_that_start_a_line() {
    assert_eq!(fault_of("a:\n'''\nx\n'''"), Some(Fault::QuotesLeadLine));
    assert_eq!(fault_of("'''x'''"), Some(Fault::QuotesLeadLine));
}

#[test]
fn hjson_reads_three_quotes_inside_a_line() {
    let hjson = Hjson {};
    let document = hjson.deserialize("{\n  a: '''x y'''\n}").unwrap();
    assert_eq!(
        hjson.to_value(&document),
        Value::Object(vec![("a".to_string(), Value::String("x y".to_string()))])
    );
}

#[test]
fn hjson_reports_text_that_is_not_hjson() {
    match (Hjson {}).deserialize("{ a: [1, 2 ") {
        Err(FromHjsonError::Syntax(_)) => {}
        other => panic!("{:?}", other),
    }
    match Source::Hjson.decode("f.hjson", "{ a: [1, 2 ") {
        Err(Error::Deserialize { path, fault, detail }) => {
            assert_eq!(path, "f.hjson");
            assert_eq!(fault, Fault::Syntax);
            assert!(!detail.is_empty());
        }
        other => panic!("{:?}", other),
    }
}

#[test]
fn hjson_turns_down_a_string_that_reads_as_a_number_too_great() {
    let hjson = Hjson {};
    for text in ["99999999999999999999", "18446744073709551616", "-9223372036854775809", "18446744073709551616 ", "18446744073709551616, more"] {
        assert_eq!(
            hjson.from_value(&Value::String(text.to_string())),
            Err(IntoHjsonError::NumberTooGreat)
        );
    }
    let nested = Value::Object(vec![(
        "a".to_string(),
        Value::Array(vec![Value::String("99999999999999999999".to_string())]),
    )]);
    assert_eq!(hjson.from_value(&nested), Err(IntoHjsonError::NumberTooGreat));
    assert_eq!(
        hjson.from_value(&Value::String("1 /* never closed".to_string())),
        Err(IntoHjsonError::CommentNotClosed)
    );
    let mut files = Files::new();
    assert_eq!(
        Source::Hjson.write("r/a", &Value::String("99999999999999999999".to_string()), &mut files),
        Err(Error::Serialize {
            path: "r/a.hjson".to_string(),
            fault: Fault::NumberTooGreat,
            detail: String::new()
        })
    );
    assert!(files.written().is_empty());
}

#[test]
fn hjson_writes_strings_of_digits_that_it_can_read() {
    let hjson = Hjson {};
    for text in [
        "18446744073709551615",
        "-9223372036854775808",
        "12345",
        "99999999999999999999x",
        "x 99999999999999999999",
        "see /* this",
        "1 /* closed */",
        "99999999999999999999.5",
        "",
    ] {
        let value = Value::Object(vec![("s".to_string(), Value::String(text.to_string()))]);
        let document = hjson.from_value(&value).unwrap();
        let written = hjson.serialize(&document).unwrap();
        let read = hjson.deserialize(&written);
        match read {
            Ok(back) => assert_eq!(hjson.to_value(&back), value),
            Err(FromHjsonError::Refused(_)) => {}
            Err(other) => panic!("{:?}", other),
        }
    }
}

#[test]
fn a_store_reports_an_hjson_file_with_a_number_too_great() {
    let schema = Schema::Directory(vec![("a".to_string(), Schema::Source(Source::Hjson))]);
    let store = Store::new("r".to_string(), schema);
    let mut files = Files::new();
    files.load("r/a.hjson".to_string(), FileState::Text("a: 18446744073709551616".to_string()));
    let path = Path::from(vec!["a".to_string()]);
    assert_eq!(
        store.get(&path, &files),
        Err(Error::Deserialize {
            path: "r/a.hjson".to_string(),
            fault: Fault::NumberTooGreat,
            detail: String::new()
        })
    );
    let inside = Path::from(vec!["a".to_string(), "b".to_string()]);
    assert_eq!(
        store.set(&inside, &Value::Uint(1), &mut files),
        Err(Error::Deserialize {
            path: "r/a.hjson".to_string(),
            fault: Fault::NumberTooGreat,
            detail: String::new()
        })
    );
    assert!(files.written().is_empty());
}

#[test]
fn refuse_follows_the_reader_token_by_token() {
    assert_eq!(refuse(""), None);
    assert_eq!(refuse("9223372036854775808"), None);
    assert_eq!(refuse("-9223372036854775808"), None);
    assert_eq!(refuse("-9223372036854775809"), Some(Fault::NumberTooGreat));
    assert_eq!(refuse("18446744073709551615"), None);
    assert_eq!(refuse("18446744073709551616"), Some(Fault::NumberTooGreat));
    assert_eq!(refuse("{a: 18446744073709551616 }"), Some(Fault::NumberTooGreat));
    assert_eq!(refuse("{a: 18446744073709551616 /}"), None);
    assert_eq!(refuse("{a: 18446744073709551616 / }"), Some(Fault::NumberTooGreat));
    assert_eq!(refuse("{a: 18446744073709551616 x}"), None);
    assert_eq!(refuse("{a: x 18446744073709551616}"), None);
    assert_eq!(refuse("{a: \"18446744073709551616\"}"), None);
    assert_eq!(refuse("{18446744073709551616: 1}"), None);
    assert_eq!(refuse("{a: 0018446744073709551616}"), None);
    assert_eq!(refuse("{a: 18446744073709551616.5}"), None);
    assert_eq!(refuse("{a: 1e18446744073709551616}"), None);
    assert_eq!(refuse("[true, 18446744073709551616]"), Some(Fault::NumberTooGreat));
    assert_eq!(refuse("[truly, 18446744073709551616]"), None);
    assert_eq!(refuse("[null\n18446744073709551616]"), Some(Fault::NumberTooGreat));
    assert_eq!(refuse("{a: \"/*\"}"), None);
    assert_eq!(refuse("{a: src/*\n}"), None);
    assert_eq!(refuse("{a: x # /*\n}"), None);
    assert_eq!(refuse("{a: 1 # /*\n}"), None);
    assert_eq!(refuse("{a: 1 // /*\n}"), None);
    assert_eq!(refuse("{a: 1 /* x\n}"), Some(Fault::CommentNotClosed));
    assert_eq!(refuse("{a: 1 /* x */ /**/ /***/}"), None);
    assert_eq!(refuse("{a/*: 1}"), None);
    assert_eq!(refuse("{a: \"\n'''\n\"}"), None);
    assert_eq!(refuse("{a: x\n'''\n}"), None);
    assert_eq!(refuse("{a:\n'''x'''}"), Some(Fault::QuotesLeadLine));
    assert_eq!(refuse("[\n'''x''']"), Some(Fault::QuotesLeadLine));
    assert_eq!(refuse("[\n '''x''']"), None);
}

#[test]
fn refuse_string_follows_the_trial_of_the_writer() {
    assert_eq!(refuse_string(""), None);
    assert_eq!(refuse_string("18446744073709551615"), None);
    assert_eq!(refuse_string("18446744073709551616"), Some(IntoHjsonError::NumberTooGreat));
    assert_eq!(refuse_string("18446744073709551616 # note"), Some(IntoHjsonError::NumberTooGreat));
    assert_eq!(
        refuse_string("18446744073709551616 // note\n"),
        Some(IntoHjsonError::NumberTooGreat)
    );
    assert_eq!(
        refuse_string("18446744073709551616 /* note */ ]"),
        Some(IntoHjsonError::NumberTooGreat)
    );
    assert_eq!(refuse_string("18446744073709551616 Main St"), None);
    assert_eq!(refuse_string("18446744073709551616:"), None);
    assert_eq!(refuse_string("x18446744073709551616"), None);
    assert_eq!(refuse_string("1 18446744073709551616"), None);
    assert_eq!(refuse_string("018446744073709551616"), None);
    assert_eq!(refuse_string("18446744073709551616.5"), None);
    assert_eq!(refuse_string("18446744073709551616e2"), None);
    assert_eq!(refuse_string("-9223372036854775808"), None);
    assert_eq!(refuse_string("-9223372036854775809"), Some(IntoHjsonError::NumberTooGreat));
    assert_eq!(refuse_string("1 /* open"), Some(IntoHjsonError::CommentNotClosed));
    assert_eq!(refuse_string("1.5 /* open *"), Some(IntoHjsonError::CommentNotClosed));
    assert_eq!(refuse_string("1 /* closed */"), None);
    assert_eq!(refuse_string("1x /* open"), None);
    assert_eq!(refuse_string("x /* open"), None);
    assert_eq!(refuse_string("*/*"), None);
    assert_eq!(refuse_string("src/*"), None);
}

fn hjson_store() -> Store {
    let schema = Schema::Directory(vec![("a".to_string(), Schema::Source(Source::Hjson))]);
    Store::new("r".to_string(), schema)
}

fn segments(list: &[&str]) -> Path {
    Path::from(list.iter().map(|s| s.to_string()).collect::<Vec<String>>())
}

#[test]
fn hjson_reads_a_quoted_string_that_holds_a_comment_opener() {
    assert_eq!(
        Source::Hjson.decode("f", "{\"glob\": \"src/*\"}"),
        Ok(Value::Object(vec![("glob".to_string(), Value::String("src/*".to_string()))]))
    );
    assert_eq!(
        Source::Hjson.decode("f", "{\n  glob: src/*\n  note: \"see /* there\"\n}\n"),
        Ok(Value::Object(vec![
            ("glob".to_string(), Value::String("src/*".to_string())),
            ("note".to_string(), Value::String("see /* there".to_string())),
        ]))
    );
}

#[test]
fn a_store_gives_back_strings_that_look_like_comments_and_numbers() {
    let store = hjson_store();
    for text in [
        "*/*",
        "src/*",
        "image/*",
        "see /* this",
        "12345678901234567890123 Main St",
        "99999999999999999999x",
        "x 99999999999999999999",
        "1 99999999999999999999",
        "a: 18446744073709551616",
        "# 18446744073709551616",
    ] {
        let mut files = Files::new();
        let value = Value::String(text.to_string());
        assert_eq!(store.set(&segments(&["a", "s"]), &value, &mut files), Ok(()), "{}", text);
        assert_eq!(store.get(&segments(&["a", "s"]), &files), Ok(value.clone()), "{}", text);
        assert_eq!(
            store.set(&segments(&["a", "t"]), &Value::Uint(1), &mut files),
            Ok(()),
            "{}",
            text
        );
        assert_eq!(store.get(&segments(&["a", "s"]), &files), Ok(value), "{}", text);
    }
}

#[test]
fn a_store_gives_back_a_whole_file_that_is_such_a_string() {
    let store = hjson_store();
    for text in ["*/*", "src/*", "see /* this", "12345678901234567890123 Main St"] {
        let mut files = Files::new();
        let value = Value::String(text.to_string());
        assert_eq!(store.set(&segments(&["a"]), &value, &mut files), Ok(()), "{}", text);
        assert_eq!(store.get(&segments(&["a"]), &files), Ok(value), "{}", text);
    }
}

/// Every text of up to `length` of the pieces.
fn texts_of(pieces: &[&str], length: usize) -> Vec<String> {
    let mut all = vec![String::new()];
    let mut last = vec![String::new()];
    for _ in 0..length {
        let mut next = Vec::new();
        for text in last.iter() {
            for piece in pieces.iter() {
                next.push(format!("{}{}", text, piece));
            }
        }
        all.extend(next.iter().cloned());
        last = next;
    }
    all
}

const PIECES: [&str; 22] = [
    "{", "}", "[", "]", ",", ":", "\"", "'''", "/*", "*/", "//", "/", "#", "\n", " ", "-",
    "99999999999999999999", "7", "a", "true", ".5", "\\",
];

#[test]
fn serde_hjson_does_not_stop_the_program_on_a_text_that_is_not_refused() {
    let mut read = 0;
    for text in texts_of(&PIECES, 3) {
        if refuse(&text).is_none() {
            let _ = serde_hjson::from_str::<serde_hjson::Value>(&text);
            read += 1;
        }
    }
    assert!(read > 5000);
}

#[test]
fn serde_hjson_does_not_stop_the_program_inside_an_object_or_an_array() {
    let mut read = 0;
    for text in texts_of(&PIECES, 2) {
        for wrapped in [
            format!("{{\n  a: {}\n  b: 1\n}}", text),
            format!("[\n  {}\n  1\n]", text),
            format!("{{ a: [ {} ], b: {} }}", text, text),
            format!("{{{}: 1}}", text),
        ] {
            if refuse(&wrapped).is_none() {
                let _ = serde_hjson::from_str::<serde_hjson::Value>(&wrapped);
                read += 1;
            }
        }
    }
    assert!(read > 500);
}

#[test]
fn serde_hjson_does_not_stop_the_program_on_a_string_that_is_not_refused() {
    let mut written = 0;
    for text in texts_of(&PIECES, 3) {
        if refuse_string(&text).is_none() {
            let _ = serde_hjson::to_string(&serde_hjson::Value::String(text));
            written += 1;
        }
    }
    assert!(written > 5000);
}

#[test]
fn what_the_library_writes_as_hjson_it_reads() {
    for text in texts_of(&PIECES, 3) {
        // serde_hjson writes a slash at the beginning without quotes, and
        // drops it when it reads.
        if text.starts_with('/') {
            continue;
        }
        let value = Value::Object(vec![
            ("s".to_string(), Value::String(text.clone())),
            ("t".to_string(), Value::Array(vec![Value::String(text.clone())])),
        ]);
        if let Ok(written) = Source::Hjson.encode("f", &value) {
            match Source::Hjson.decode("f", &written) {
                Err(Error::Deserialize { fault, .. }) if fault != Fault::Syntax => {
                    panic!("{:?} was written as {:?} and then refused: {:?}", text, written, fault)
                }
                _ => {}
            }
        }
    }
}

#[test]
fn hjson_does_not_stop_the_program_on_numbers_in_any_place() {
    let digits = [
        "0",
        "18446744073709551615",
        "18446744073709551616",
        "99999999999999999999999",
        "9223372036854775809",
        "0000000000000000000000000000000000007",
    ];
    let before = ["", "-", " ", "x", "{a: ", "[1, ", "{a: -", "1.", "1e", "1e-", "/*", "//", "1-"];
    let after = [
        "", " ", "\t", "\n", "\r", "x", ".", ".5", "e5", ",", "}", "]", "#", "/", "//", "/*",
        "/* x */", ":", "\0", " x", "\n}", ", 2]", "/ 2",
    ];
    let mut count = 0;
    for b in before.iter() {
        for d in digits.iter() {
            for a in after.iter() {
                let text = format!("{}{}{}", b, d, a);
                let _ = Source::Hjson.decode("f", &text);
                let _ = Source::Hjson.encode("f", &Value::String(text.clone()));
                let wrapped = format!("{{\n  a: {}\n  b: [{}]\n}}", text, text);
                let _ = Source::Hjson.decode("f", &wrapped);
                count += 1;
            }
        }
    }
    assert_eq!(count, 13 * 6 * 23);
}

#[test]
fn hjson_does_not_stop_the_program_on_comments_and_quotes() {
    let texts = [
        "'''", "\n'''", " '''", "{a:\n '''x'''}", "{a: '''}", "{a: '''\nx\n'''}",
        "['''x''']", "\r'''x'''", "/* */", "/* * /", "/*/", "/**", "{a: 1 /* x */}",
        "{a: 1 /* x }", "{a: \"/*\"}", "// /*\n{a: 1}", "{", "}", "[", ",", ":", "{a:}", "{:1}",
        "\"abc", "\"\\", "\0", "{a: - 5}", "{a: 01}", "{a: 1e400}", "é",
    ];
    for text in texts.iter() {
        let _ = Source::Hjson.decode("f", text);
        let member = Value::Object(vec![(text.to_string(), Value::String(text.to_string()))]);
        if let Ok(written) = Source::Hjson.encode("f", &member) {
            let _ = Source::Hjson.decode("f", &written);
        }
    }
}

fn read(text: &str) -> Result<Value, Error> {
    Source::Hjson.decode("f", text)
}

fn member(name: &str, value: Value) -> Value {
    Value::Object(vec![(name.to_string(), value)])
}

#[test]
fn hjson_reads_members_without_braces_whatever_the_text_is_as_one_value() {
    // As one value each of these texts would begin with a string that ends
    // with its line, and a comment that is never closed would follow, or it
    // would begin with a number too great or with three quotes.
    assert_eq!(
        read("a: '''\n  /* x\n  '''"),
        Ok(member("a", Value::String("/* x".to_string())))
    );
    assert_eq!(read("a: \"x\n/*\""), Ok(member("a", Value::String("x\n/*".to_string()))));
    assert_eq!(
        read("99999999999999999999\n: x"),
        Ok(member("99999999999999999999", Value::String("x".to_string())))
    );
    assert_eq!(read("'''a''': x"), Ok(member("'''a'''", Value::String("x".to_string()))));
    assert_eq!(read("a: x /*"), Ok(member("a", Value::String("x /*".to_string()))));
}

#[test]
fn hjson_goes_on_to_one_value_where_the_members_without_braces_fail() {
    // A number that ends with the text is not taken for a member's value.
    assert_eq!(read("a: 1"), Ok(Value::String("a: 1".to_string())));
    assert_eq!(fault_of("a: 1\n/*"), Some(Fault::CommentNotClosed));
    assert_eq!(fault_of("a: x\n/*"), Some(Fault::CommentNotClosed));
    assert_eq!(fault_of("a: x\n99999999999999999999\n"), None);
    assert_eq!(fault_of("a: x\nb: 99999999999999999999\n"), Some(Fault::NumberTooGreat));
    assert_eq!(fault_of("a: x\nb: '''\n"), None);
    assert_eq!(fault_of("a: x\nb:\n'''y'''"), Some(Fault::QuotesLeadLine));
}

#[test]
fn hjson_follows_the_escapes_of_a_quoted_string() {
    // The reader gives up at half a pair, and never comes to the comment.
    assert_eq!(fault_of("{\"a\": \"\\ud800\"}\n/*"), None);
    assert_eq!(fault_of("{\"a\": \"\\udc00\"}\n/*"), None);
    assert_eq!(fault_of("{\"a\": \"\\ud800\\u0041\"}\n/*"), None);
    assert_eq!(fault_of("{\"a\": \"\\u12g4\"}\n/*"), None);
    assert_eq!(fault_of("{\"a\": \"\\x\"}\n/*"), None);
    match read("{\"a\": \"\\ud800\"}\n/*") {
        Err(Error::Deserialize { fault, detail, .. }) => {
            assert_eq!(fault, Fault::Syntax);
            assert!(!detail.is_empty());
        }
        other => panic!("{:?}", other),
    }
    // It reads a whole pair and a character by itself, and comes to it.
    assert_eq!(fault_of("{\"a\": \"\\ud83d\\ude00\"}\n/*"), Some(Fault::CommentNotClosed));
    assert_eq!(fault_of("{\"a\": \"\\uD83D\\uDE00\"}\n/*"), Some(Fault::CommentNotClosed));
    assert_eq!(fault_of("{\"a\": \"\\u00e9\\n\\\"\"}\n/*"), Some(Fault::CommentNotClosed));
    assert_eq!(
        read("{\"a\": \"\\ud83d\\ude00 \\u00e9\"}"),
        Ok(member("a", Value::String("\u{1f600} \u{e9}".to_string())))
    );
}

const ROOT_PIECES: [&str; 16] = [
    "a", ":", " ", "\n", "99999999999999999999", "'''", "/*", "*/", "\"", ",", "x", "1", "#", "/",
    "true", "}",
];

#[test]
fn serde_hjson_does_not_stop_the_program_on_members_without_braces() {
    let mut read = 0;
    for text in texts_of(&ROOT_PIECES, 4) {
        for whole in [text.clone(), format!("a: {}", text), format!("a: x\n{}", text)] {
            if refuse(&whole).is_none() {
                let _ = serde_hjson::from_str::<serde_hjson::Value>(&whole);
                read += 1;
            }
        }
    }
    assert!(read > 50000);
}

const ESCAPE_PIECES: [&str; 14] = [
    "\"", "\\", "u", "d", "8", "c", "0", "f", "/*", "\n", "99999999999999999999", ":", "g", "é",
];

#[test]
fn serde_hjson_does_not_stop_the_program_on_escapes() {
    let mut read = 0;
    for text in texts_of(&ESCAPE_PIECES, 4) {
        for whole in [
            format!("a: \"\\u{}", text),
            format!("\"\\ud8{}", text),
            format!("{{\"\\ud800\\udc{}", text),
        ] {
            if refuse(&whole).is_none() {
                let _ = serde_hjson::from_str::<serde_hjson::Value>(&whole);
                read += 1;
            }
        }
    }
    assert!(read > 50000);
}

#[test]
fn hjson_reads_an_ordinary_document() {
    let text = "{\n  # the sources\n  glob: src/**/*.rs\n  // where they go\n  out: \"/var/lib/nest/*\"\n  \
                /* how many\n     at most */\n  limit: 18446744073709551615\n  least: -9223372036854775808\n  \
                ratio: 0.25\n  id: \"99999999999999999999\"\n  phone: 0049 30 99999999999999999999\n  \
                url: http://example.org/a/*?b=1#c\n  note:\n    '''\n    a /* b\n    c */ d\n    '''\n  \
                list: [1, 2 // two\n    three /* not a comment\n  ]\n  empty: \"\"\n}\n";
    assert_eq!(fault_of(text), None);
    assert_eq!(
        read(text),
        Ok(Value::Object(vec![
            ("glob".to_string(), Value::String("src/**/*.rs".to_string())),
            ("out".to_string(), Value::String("/var/lib/nest/*".to_string())),
            ("limit".to_string(), Value::Uint(18446744073709551615)),
            ("least".to_string(), Value::Int(-9223372036854775808)),
            ("ratio".to_string(), Value::Float(0.25f64.to_bits())),
            ("id".to_string(), Value::String("99999999999999999999".to_string())),
            ("phone".to_string(), Value::String("0049 30 99999999999999999999".to_string())),
            ("url".to_string(), Value::String("http://example.org/a/*?b=1#c".to_string())),
            ("note".to_string(), Value::String("a /* b\nc */ d".to_string())),
            (
                "list".to_string(),
                Value::Array(vec![
                    Value::Uint(1),
                    Value::Uint(2),
                    Value::String("three /* not a comment".to_string()),
                ])
            ),
            ("empty".to_string(), Value::String(String::new())),
        ]))
    );
}

#[test]
fn a_fault_needs_its_characters_in_the_text() {
    let mut faults = 0;
    for text in texts_of(&PIECES, 3) {
        for whole in [text.clone(), format!("{{a: {}\n}}", text), format!("[{}", text)] {
            match refuse(&whole) {
                None => {}
                Some(Fault::CommentNotClosed) => {
                    assert!(whole.contains("/*"), "{:?}", whole);
                    faults += 1;
                }
                Some(Fault::NumberTooGreat) => {
                    assert!(whole.contains("99999999999999999999"), "{:?}", whole);
                    faults += 1;
                }
                Some(Fault::QuotesLeadLine) => {
                    assert!(whole.contains("'''"), "{:?}", whole);
                    faults += 1;
                }
                Some(other) => panic!("{:?} gives {:?}", whole, other),
            }
        }
    }
    assert!(faults > 1000);
}
