use serde_json::Value;
use tideloom::expressions::{build_json_pointer, chars_of, follow, path_segments, resolve_iterable};

fn parse(text: &str) -> Value {
    serde_json::from_str(text).expect("valid json")
}

#[test]
fn pointers_of_dotted_paths() {
    assert_eq!(build_json_pointer(".pet.id"), "/pet/id");
    assert_eq!(build_json_pointer("..pet"), "/pet");
    assert_eq!(build_json_pointer("."), "/");
    assert_eq!(build_json_pointer(""), "/");
    assert_eq!(build_json_pointer("a"), "/a");
    assert_eq!(build_json_pointer(".a~b/c.d"), "/a~0b~1c/d");
    assert_eq!(build_json_pointer(".a..b"), "/a//b");
    assert_eq!(build_json_pointer(".a."), "/a/");
}

#[test]
fn chars_are_the_strings_characters() {
    assert_eq!(chars_of("aé~"), vec!['a', 'é', '~']);
    assert!(chars_of("").is_empty());
}

#[test]
fn for_in_paths() {
    let none: Vec<String> = Vec::new();
    assert_eq!(path_segments(""), none);
    assert_eq!(path_segments("   "), none);
    assert_eq!(path_segments("\t\n"), none);
    assert_eq!(path_segments("$"), none);
    assert_eq!(path_segments("."), none);
    assert_eq!(path_segments("$."), none);
    assert_eq!(path_segments("$.items"), vec!["items"]);
    assert_eq!(path_segments(".a.b"), vec!["a", "b"]);
    assert_eq!(path_segments("$$..a..b."), vec!["a", "b"]);
    assert_eq!(path_segments("a b"), vec!["a b"]);
    assert_eq!(path_segments(" .a"), vec![" ", "a"]);
    assert_eq!(path_segments("a.$b"), vec!["a", "$b"]);
}

#[test]
fn following_a_path() {
    let doc = parse(r#"{"a": {"b": [1, 2]}, "c": 3}"#);
    let ab = vec!["a".to_string(), "b".to_string()];
    assert_eq!(follow(&doc, &ab), Some(&parse("[1, 2]")));
    assert_eq!(follow(&doc, &Vec::new()), Some(&doc));
    assert_eq!(follow(&doc, &vec!["x".to_string()]), None);
    assert_eq!(follow(&doc, &vec!["c".to_string(), "d".to_string()]), None);
    assert_eq!(follow(&doc, &vec!["x".to_string(), "a".to_string()]), None);
    let list = parse("[{\"a\": 1}]");
    assert_eq!(follow(&list, &vec!["a".to_string()]), None);
    assert_eq!(follow(&list, &vec!["0".to_string()]), None);
}

#[test]
fn iterable_is_the_array_at_the_path() {
    let doc = parse(r#"{"items": [1, "two", null], "nested": {"list": [true]}}"#);
    let items = resolve_iterable("$.items", &doc).expect("items is an array");
    assert_eq!(items, vec![parse("1"), parse("\"two\""), Value::Null]);
    let nested = resolve_iterable(".nested.list", &doc).expect("list is an array");
    assert_eq!(nested, vec![Value::Bool(true)]);
    let whole = resolve_iterable("$", &parse("[1, 2]")).expect("the input is an array");
    assert_eq!(whole, vec![parse("1"), parse("2")]);
    let blank = resolve_iterable("  ", &parse("[]")).expect("the input is an array");
    assert!(blank.is_empty());
    let dot = resolve_iterable(".", &parse("[7]")).expect("the input is an array");
    assert_eq!(dot, vec![parse("7")]);
}

#[test]
fn iterable_fails_for_a_missing_path() {
    let doc = parse(r#"{"items": [1]}"#);
    let err = resolve_iterable("$.nope", &doc).expect_err("nope is missing");
    assert_eq!(err.to_string(), "for.in path '$.nope' not found in input");
    let err = resolve_iterable("$.items.x", &doc).expect_err("an array has no members");
    assert_eq!(err.to_string(), "for.in path '$.items.x' not found in input");
}

#[test]
fn iterable_fails_for_what_is_no_array() {
    let doc = parse(r#"{"n": 5, "o": {"k": "v"}}"#);
    let err = resolve_iterable("$.n", &doc).expect_err("a number is no array");
    assert_eq!(err.to_string(), "for.in expression '$.n' did not resolve to an array (got 5)");
    let err = resolve_iterable(".o", &doc).expect_err("an object is no array");
    assert_eq!(
        err.to_string(),
        "for.in expression '.o' did not resolve to an array (got {\"k\":\"v\"})"
    );
    let err = resolve_iterable("", &doc).expect_err("the input is no array");
    assert!(err.to_string().starts_with("for.in expression '' did not resolve to an array (got {"));
}
