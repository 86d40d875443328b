//! JSON values, their text, and strings.

use praxis_responses::json::Json;
use praxis_responses::text::{decimal_text, joined, joined3, same_text, split_once};

fn json(text: &str) -> Json {
    Json::from_text(text).expect("test JSON should be valid")
}

#[test]
fn reading_takes_values_apart() {
    let value = json(r#"{"b": [null, true, "x"], "a": {"n": 1}}"#);
    assert_eq!(
        value,
        Json::Object(vec![
            ("a".to_owned(), Json::Object(vec![("n".to_owned(), json("1"))])),
            (
                "b".to_owned(),
                Json::Array(vec![Json::Null, Json::Bool(true), Json::String("x".to_owned())])
            ),
        ])
    );
    assert!(matches!(json("1"), Json::Number(_)));
}

#[test]
fn writing_is_compact() {
    let value = json(r#"{ "a" : [ 1, 2.5, "t\n" ], "b": null }"#);
    assert_eq!(value.to_text().unwrap(), r#"{"a":[1,2.5,"t\n"],"b":null}"#);
    assert_eq!(value.to_bytes().unwrap(), br#"{"a":[1,2.5,"t\n"],"b":null}"#.to_vec());
}

#[test]
fn what_is_written_is_read_back() {
    let value = json(r#"{"text": "é \"", "list": [[], {}, [-7, 0.1, 18446744073709551615]]}"#);
    assert_eq!(json(&value.to_text().unwrap()), value);
    assert_eq!(Json::from_bytes(&value.to_bytes().unwrap()), Ok(value));
}

#[test]
fn nesting_is_read_to_a_depth() {
    let nested = |levels: usize| format!("{}{}", "[".repeat(levels), "]".repeat(levels));
    assert!(Json::from_text(&nested(127)).is_ok());
    assert!(Json::from_text(&nested(128)).is_err());
}

#[test]
fn errors_of_reading_are_told() {
    let text_error = Json::from_text("{").unwrap_err();
    assert!(text_error.contains("EOF while parsing"), "{text_error}");
    let bytes_error = Json::from_bytes(&[0xff]).unwrap_err();
    assert!(bytes_error.contains("expected value"), "{bytes_error}");
}

#[test]
fn members_are_found_by_name() {
    let value = json(r#"{"a": 1, "b": 2}"#);
    assert_eq!(value.get("b"), Some(&json("2")));
    assert_eq!(value.get("c"), None);
    assert_eq!(json("[1]").get("a"), None);
    assert_eq!(Json::Null.get("a"), None);
}

#[test]
fn the_last_member_of_a_name_counts() {
    let twice = Json::Object(vec![
        ("a".to_owned(), Json::Bool(false)),
        ("a".to_owned(), Json::Bool(true)),
    ]);
    assert_eq!(twice.get("a"), Some(&Json::Bool(true)));
    assert_eq!(twice.to_text().unwrap(), r#"{"a":true}"#);
}

#[test]
fn setting_replaces_or_adds_a_member() {
    let mut value = json(r#"{"a": 1, "b": 2}"#);
    value.set("a", Json::Null);
    value.set("c", Json::Bool(true));
    assert_eq!(value.to_text().unwrap(), r#"{"a":null,"b":2,"c":true}"#);
    let mut null = Json::Null;
    null.set("a", json("3"));
    assert_eq!(null, json(r#"{"a": 3}"#));
}

#[test]
fn clones_are_equal() {
    let value = json(r#"[{"a": [1, "x", false, null]}]"#);
    assert_eq!(value.clone(), value);
}

#[test]
fn texts_are_compared_and_joined() {
    assert!(same_text("", ""));
    assert!(same_text("\u{e9}x", "\u{e9}x"));
    assert!(!same_text("ab", "abc"));
    assert!(!same_text("ab", "aB"));
    assert_eq!(joined("a", "b"), "ab");
    assert_eq!(joined3("a", "", "c"), "ac");
}

#[test]
fn integers_in_decimal() {
    for i in [0, 7, 10, 12345, -1, -90, i64::MAX, i64::MIN] {
        assert_eq!(decimal_text(i), format!("{i}"));
    }
}

#[test]
fn texts_are_split_at_the_first_occurrence() {
    assert_eq!(split_once("a:b:c", ':'), Some(("a", "b:c")));
    assert_eq!(split_once(":", ':'), Some(("", "")));
    assert_eq!(split_once("\u{e9}:\u{fc}", ':'), Some(("\u{e9}", "\u{fc}")));
    assert_eq!(split_once("abc", ':'), None);
    assert_eq!(split_once("", ':'), None);
}

#[test]
fn integers_are_told_from_floats() {
    for text in ["0", "-1", "9223372036854775807", "-9223372036854775808", "18446744073709551615"] {
        assert!(json(text).is_float_free_within(0), "{text}");
        assert_eq!(json(&json(text).to_text().unwrap()), json(text));
        assert_eq!(Json::from_bytes(&json(text).to_bytes().unwrap()), Ok(json(text)));
    }
    for text in ["0.5", "1e3", "-0", "18446744073709551616"] {
        assert!(!json(text).is_float_free_within(127), "{text}");
    }
}

#[test]
fn floats_and_depth_are_found_inside() {
    assert!(json(r#"{"a": [1, {"b": "x"}], "c": null}"#).is_float_free_within(3));
    assert!(!json(r#"{"a": [1, {"b": "x"}], "c": null}"#).is_float_free_within(2));
    assert!(!json(r#"{"a": [1, {"b": 0.5}]}"#).is_float_free_within(127));
    assert!(!json("[]").is_float_free_within(0));
    let shadowed = Json::Object(vec![("a".to_owned(), json("0.5")), ("a".to_owned(), json("1"))]);
    assert!(shadowed.is_float_free_within(1), "only the last member of a name counts");
}
