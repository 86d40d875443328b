//! The shared state at the start of a request.

use praxis_responses::json::Json;
use praxis_responses::state::{extract_array_field, normalize_input, ResponsesState};

fn json(text: &str) -> Json {
    Json::from_text(text).expect("test JSON should be valid")
}

fn string(text: &str) -> Json {
    Json::String(text.to_owned())
}

#[test]
fn from_request_body_extracts_string_input() {
    let body = json(r#"{"model": "gpt-4o", "input": "Hello, world!"}"#);
    let state = ResponsesState::from_request_body(body);
    assert_eq!(state.input.len(), 1, "string input should produce one item");
    assert_eq!(
        state.input[0].get("role"),
        Some(&string("user")),
        "string input should default to user role"
    );
    assert_eq!(
        state.input[0].get("type"),
        Some(&string("message")),
        "string input should produce a Responses message item"
    );
    assert_eq!(state.input[0].get("content"), Some(&string("Hello, world!")));
}

#[test]
fn from_request_body_extracts_array_input() {
    let body = json(
        r#"{
            "model": "gpt-4o",
            "input": [
                {"role": "user", "content": "first"},
                {"role": "assistant", "content": "second"}
            ]
        }"#,
    );
    let state = ResponsesState::from_request_body(body);
    assert_eq!(state.input.len(), 2, "array input should preserve all items");
}

#[test]
fn from_request_body_empty_input() {
    let body = json(r#"{"model": "gpt-4o"}"#);
    let state = ResponsesState::from_request_body(body);
    assert!(state.input.is_empty(), "missing input should produce empty input");
}

#[test]
fn input_and_messages_start_identical() {
    let body = json(
        r#"{
            "model": "gpt-4o",
            "input": [
                {"role": "user", "content": "hello"},
                {"role": "assistant", "content": "hi"}
            ]
        }"#,
    );
    let state = ResponsesState::from_request_body(body);
    assert_eq!(
        state.input, state.messages,
        "input and messages should be identical at construction"
    );
}

#[test]
fn from_request_body_extracts_tools() {
    let body = json(
        r#"{"model": "gpt-4o", "input": "test", "tools": [{"type": "function", "name": "get_weather"}]}"#,
    );
    let state = ResponsesState::from_request_body(body);
    assert_eq!(state.tools.len(), 1, "should extract one tool");
}

#[test]
fn from_request_body_default_tool_choice() {
    let body = json(r#"{"model": "gpt-4o", "input": "test"}"#);
    let state = ResponsesState::from_request_body(body);
    assert_eq!(state.tool_choice, json(r#""auto""#), "default tool_choice should be auto");
}

#[test]
fn from_request_body_explicit_tool_choice() {
    let body = json(r#"{"model": "gpt-4o", "input": "test", "tool_choice": "required"}"#);
    let state = ResponsesState::from_request_body(body);
    assert_eq!(
        state.tool_choice,
        json(r#""required""#),
        "should preserve explicit tool_choice"
    );
}

#[test]
fn initial_state_has_zero_iteration() {
    let body = json(r#"{"model": "gpt-4o", "input": "test"}"#);
    let state = ResponsesState::from_request_body(body);
    assert_eq!(state.iteration, 0, "initial iteration should be 0");
}

#[test]
fn initial_state_has_empty_tool_calls() {
    let body = json(r#"{"model": "gpt-4o", "input": "test"}"#);
    let state = ResponsesState::from_request_body(body);
    assert!(state.tool_calls.is_empty(), "initial tool_calls should be empty");
}

#[test]
fn initial_state_has_null_usage() {
    let body = json(r#"{"model": "gpt-4o", "input": "test"}"#);
    let state = ResponsesState::from_request_body(body);
    assert_eq!(state.usage, Json::Null, "initial usage should be null");
}

#[test]
fn request_body_is_preserved() {
    let body = json(r#"{"model": "gpt-4o", "input": "hello", "temperature": 0.7}"#);
    let state = ResponsesState::from_request_body(body.clone());
    assert_eq!(state.request_body, body, "original request body should be preserved");
}

#[test]
fn other_inputs_and_fields_give_no_items() {
    assert!(normalize_input(&json(r#"{"input": 5}"#)).is_empty());
    assert!(normalize_input(&json(r#"{"input": null}"#)).is_empty());
    assert!(normalize_input(&json("[1, 2]")).is_empty());
    assert!(extract_array_field(&json(r#"{"tools": {}}"#), "tools").is_empty());
    assert_eq!(extract_array_field(&json(r#"{"a": [1, 2]}"#), "a"), vec![json("1"), json("2")]);
}

#[test]
fn an_explicit_null_tool_choice_is_kept() {
    let state = ResponsesState::from_request_body(json(r#"{"tool_choice": null}"#));
    assert_eq!(state.tool_choice, Json::Null);
    assert_eq!(state.response_object, Json::Null);
    assert!(state.output_items.is_empty());
}
