//! The rehydrate filter, from request to new body.

use praxis_responses::body::{BodyAccess, BodyMode, MAX_JSON_BODY_BYTES};
use praxis_responses::filter::{FilterAction, HttpFilterContext, Rejection};
use praxis_responses::json::Json;
use praxis_responses::rehydrate::{
    assemble_conversation, assemble_previous_messages, extract_conversation_id, extract_source, reject_invalid,
    reject_invalid_json, reject_not_found, reject_server_error, rehydrate_from_conversation, rehydrate_from_previous_response, validate_response_status,
    write_enriched_body, RehydrateFilter, RehydrateSource, Step,
};
use praxis_responses::store::registry::ResponseStoreRegistry;
use praxis_responses::store::types::{ConversationRecord, ResponseRecord, StoreError};

// -----------------------------------------------------------------------------
// A server with a store
// -----------------------------------------------------------------------------

struct MockStore {
    records: Vec<ResponseRecord>,
    conversations: Vec<ConversationRecord>,
    should_fail: bool,
}

impl MockStore {
    fn with_completed_response(id: &str, input: Json, messages: Json) -> Self {
        let response_object = json(&format!(
            r#"{{
                "id": "{id}",
                "status": "completed",
                "output": [{{"type": "message", "content": [{{"type": "output_text", "text": "Hi"}}]}}]
            }}"#
        ));
        MockStore { records: vec![record(id, response_object, input, messages)], ..MockStore::empty() }
    }

    fn with_status(id: &str, status: &str) -> Self {
        let response_object = json(&format!(r#"{{"id": "{id}", "status": "{status}"}}"#));
        MockStore {
            records: vec![record(id, response_object, string("Hello"), json("[]"))],
            ..MockStore::empty()
        }
    }

    fn empty() -> Self {
        MockStore { records: vec![], conversations: vec![], should_fail: false }
    }

    fn failing() -> Self {
        MockStore { should_fail: true, ..MockStore::empty() }
    }

    fn get_response(&self, tenant_id: &str, id: &str) -> Result<Option<ResponseRecord>, StoreError> {
        if self.should_fail {
            return Err(StoreError::Unavailable("mock failure".to_owned()));
        }
        Ok(self.records.iter().find(|r| r.tenant_id == tenant_id && r.id == id).cloned())
    }

    fn get_conversation(&self, tenant_id: &str, id: &str) -> Result<Option<ConversationRecord>, StoreError> {
        if self.should_fail {
            return Err(StoreError::Unavailable("mock failure".to_owned()));
        }
        Ok(self
            .conversations
            .iter()
            .find(|c| c.tenant_id == tenant_id && c.conversation_id == id)
            .cloned())
    }
}

fn record(id: &str, response_object: Json, input: Json, messages: Json) -> ResponseRecord {
    ResponseRecord {
        id: id.to_owned(),
        tenant_id: "default".to_owned(),
        created_at: 1000,
        model: "gpt-4.1".to_owned(),
        response_object,
        input,
        messages,
    }
}

fn setup_registry(store: MockStore) -> ResponseStoreRegistry<MockStore> {
    let mut registry = ResponseStoreRegistry::new();
    registry.register("default", store).unwrap();
    registry
}

fn run(
    filter: &RehydrateFilter,
    ctx: &mut HttpFilterContext<'_, MockStore>,
    body: &mut Option<Vec<u8>>,
    end_of_stream: bool,
) -> FilterAction {
    match filter.on_request_body(ctx, body, end_of_stream) {
        Step::Done(action) => action,
        Step::FetchResponse(mut fetch) => {
            let fetched = fetch.store.get_response(&fetch.tenant_id, &fetch.id);
            rehydrate_from_previous_response(ctx, &mut fetch.request, body, &fetch.id, fetched).unwrap()
        }
        Step::FetchConversation(mut fetch) => {
            let fetched = fetch.store.get_conversation(&fetch.tenant_id, &fetch.id);
            rehydrate_from_conversation(ctx, &mut fetch.request, body, &fetch.id, fetched).unwrap()
        }
    }
}

fn json(text: &str) -> Json {
    Json::from_text(text).expect("test JSON should be valid")
}

fn string(text: &str) -> Json {
    Json::String(text.to_owned())
}

fn bytes(text: &str) -> Vec<u8> {
    text.as_bytes().to_vec()
}

fn parsed(body: &Option<Vec<u8>>) -> Json {
    Json::from_bytes(body.as_ref().unwrap()).unwrap()
}

fn input_items(request: &Json) -> &Vec<Json> {
    match request.get("input") {
        Some(Json::Array(items)) => items,
        other => panic!("expected an array, got {other:?}"),
    }
}

// -----------------------------------------------------------------------------
// from_config
// -----------------------------------------------------------------------------

#[test]
fn from_config_succeeds() {
    let filter = RehydrateFilter::from_config(&serde_yaml::Value::Null).unwrap();
    assert_eq!(filter.name(), "rehydrate", "filter name should be rehydrate");
}

#[test]
fn body_access_is_read_write() {
    let filter = RehydrateFilter;
    assert_eq!(
        filter.request_body_access(),
        BodyAccess::ReadWrite,
        "filter should use read-write body access"
    );
}

// -----------------------------------------------------------------------------
// Bypass
// -----------------------------------------------------------------------------

#[test]
fn skips_non_post_request() {
    let filter = RehydrateFilter;
    let mut ctx: HttpFilterContext<MockStore> = HttpFilterContext::new("GET", None);
    let mut body = Some(bytes(r#"{"input":"test"}"#));

    let action = run(&filter, &mut ctx, &mut body, true);
    assert!(matches!(action, FilterAction::Continue), "non-POST should continue");
}

#[test]
fn skips_non_responses_format() {
    let filter = RehydrateFilter;
    let mut ctx: HttpFilterContext<MockStore> = HttpFilterContext::new("POST", None);
    ctx.set_metadata("openai_responses_format.format", "openai_chat_completions");
    let mut body = Some(bytes(r#"{"messages":[]}"#));

    let action = run(&filter, &mut ctx, &mut body, true);
    assert!(
        matches!(action, FilterAction::Release),
        "non-responses format should release"
    );
}

#[test]
fn continues_on_non_end_of_stream() {
    let filter = RehydrateFilter;
    let mut ctx: HttpFilterContext<MockStore> = HttpFilterContext::new("POST", None);
    let mut body = Some(bytes(r#"{"input":"partial"}"#));

    let action = run(&filter, &mut ctx, &mut body, false);
    assert!(
        matches!(action, FilterAction::Continue),
        "non-end-of-stream should continue"
    );
}

// -----------------------------------------------------------------------------
// Passthrough
// -----------------------------------------------------------------------------

#[test]
fn passthrough_when_no_previous_response_id() {
    let filter = RehydrateFilter;
    let mut ctx: HttpFilterContext<MockStore> = HttpFilterContext::new("POST", None);
    ctx.set_metadata("openai_responses_format.format", "openai_responses");
    let mut body = Some(bytes(r#"{"model":"gpt-4.1","input":"Hello"}"#));

    let action = run(&filter, &mut ctx, &mut body, true);
    assert!(
        matches!(action, FilterAction::Release),
        "should release when no previous_response_id"
    );
    let parsed = parsed(&body);
    assert_eq!(parsed.get("input"), Some(&string("Hello")), "body should be unchanged");
}

#[test]
fn passthrough_when_previous_response_id_is_null() {
    let filter = RehydrateFilter;
    let mut ctx: HttpFilterContext<MockStore> = HttpFilterContext::new("POST", None);
    ctx.set_metadata("openai_responses_format.format", "openai_responses");
    let mut body = Some(bytes(r#"{"model":"gpt-4.1","input":"Hello","previous_response_id":null}"#));

    let action = run(&filter, &mut ctx, &mut body, true);
    assert!(
        matches!(action, FilterAction::Release),
        "should release when previous_response_id is null"
    );
}

// -----------------------------------------------------------------------------
// Rehydration
// -----------------------------------------------------------------------------

#[test]
fn rehydrates_with_previous_response_id() {
    let messages = json(
        r#"[
            {"role": "user", "content": "Hello"},
            {"role": "assistant", "content": "Hi there"}
        ]"#,
    );
    let store = MockStore::with_completed_response("resp_prev", string("Hello"), messages);
    let registry = setup_registry(store);

    let filter = RehydrateFilter;
    let mut ctx = HttpFilterContext::new("POST", Some(&registry));
    ctx.set_metadata("openai_responses_format.format", "openai_responses");
    let mut body = Some(bytes(r#"{"model":"gpt-4.1","input":"What next?","previous_response_id":"resp_prev"}"#));

    let action = run(&filter, &mut ctx, &mut body, true);
    assert!(
        matches!(action, FilterAction::Release),
        "should release after rehydration"
    );

    let parsed = parsed(&body);
    let input = input_items(&parsed);
    assert_eq!(input.len(), 3, "should have 2 previous messages + 1 current");
    assert_eq!(input[0].get("role"), Some(&string("user")), "first message should be user");
    assert_eq!(input[1].get("role"), Some(&string("assistant")), "second message should be assistant");
    assert_eq!(input[2], string("What next?"), "third element should be current input");
    assert_eq!(
        ctx.get_metadata("responses.previous_response_id"),
        Some("resp_prev"),
        "should set previous_response_id metadata"
    );
}

// -----------------------------------------------------------------------------
// Fallback Reconstruction
// -----------------------------------------------------------------------------

#[test]
fn fallback_reconstruction_when_messages_empty() {
    let store = MockStore::with_completed_response("resp_prev", string("Hello"), json("[]"));
    let registry = setup_registry(store);

    let filter = RehydrateFilter;
    let mut ctx = HttpFilterContext::new("POST", Some(&registry));
    ctx.set_metadata("openai_responses_format.format", "openai_responses");
    let mut body = Some(bytes(r#"{"input":"What next?","previous_response_id":"resp_prev"}"#));

    let action = run(&filter, &mut ctx, &mut body, true);
    assert!(
        matches!(action, FilterAction::Release),
        "should release after fallback rehydration"
    );

    let parsed = parsed(&body);
    let input = input_items(&parsed);
    assert!(
        input.len() >= 2,
        "fallback should reconstruct from input + output (got {len})",
        len = input.len()
    );
}

#[test]
fn fallback_reconstruction_when_messages_null() {
    let store = MockStore::with_completed_response("resp_prev", string("Hello"), Json::Null);
    let registry = setup_registry(store);

    let filter = RehydrateFilter;
    let mut ctx = HttpFilterContext::new("POST", Some(&registry));
    ctx.set_metadata("openai_responses_format.format", "openai_responses");
    let mut body = Some(bytes(r#"{"input":"What next?","previous_response_id":"resp_prev"}"#));

    let action = run(&filter, &mut ctx, &mut body, true);
    assert!(
        matches!(action, FilterAction::Release),
        "should release after null-messages fallback"
    );

    let parsed = parsed(&body);
    let input = input_items(&parsed);
    assert!(
        input.len() >= 2,
        "fallback should reconstruct from input + output (got {len})",
        len = input.len()
    );
}

// -----------------------------------------------------------------------------
// Rejections
// -----------------------------------------------------------------------------

#[test]
fn rejects_when_previous_response_not_found() {
    let store = MockStore::empty();
    let registry = setup_registry(store);

    let filter = RehydrateFilter;
    let mut ctx = HttpFilterContext::new("POST", Some(&registry));
    ctx.set_metadata("openai_responses_format.format", "openai_responses");
    let mut body = Some(bytes(r#"{"input":"Hi","previous_response_id":"resp_missing"}"#));

    let action = run(&filter, &mut ctx, &mut body, true);
    match action {
        FilterAction::Reject(r) => assert_eq!(r.status, 400, "should reject with 400"),
        other => panic!("expected Reject, got {other:?}"),
    }
}

#[test]
fn rejects_when_status_not_completed() {
    let store = MockStore::with_status("resp_123", "in_progress");
    let registry = setup_registry(store);

    let filter = RehydrateFilter;
    let mut ctx = HttpFilterContext::new("POST", Some(&registry));
    ctx.set_metadata("openai_responses_format.format", "openai_responses");
    let mut body = Some(bytes(r#"{"input":"Hi","previous_response_id":"resp_123"}"#));

    let action = run(&filter, &mut ctx, &mut body, true);
    match action {
        FilterAction::Reject(r) => assert_eq!(r.status, 400, "should reject non-completed status"),
        other => panic!("expected Reject, got {other:?}"),
    }
}

#[test]
fn rejects_when_status_incomplete() {
    let store = MockStore::with_status("resp_123", "incomplete");
    let registry = setup_registry(store);

    let filter = RehydrateFilter;
    let mut ctx = HttpFilterContext::new("POST", Some(&registry));
    ctx.set_metadata("openai_responses_format.format", "openai_responses");
    let mut body = Some(bytes(r#"{"input":"Hi","previous_response_id":"resp_123"}"#));

    let action = run(&filter, &mut ctx, &mut body, true);
    match action {
        FilterAction::Reject(r) => assert_eq!(r.status, 400, "should reject incomplete status"),
        other => panic!("expected Reject, got {other:?}"),
    }
}

#[test]
fn rejects_when_status_failed() {
    let store = MockStore::with_status("resp_123", "failed");
    let registry = setup_registry(store);

    let filter = RehydrateFilter;
    let mut ctx = HttpFilterContext::new("POST", Some(&registry));
    ctx.set_metadata("openai_responses_format.format", "openai_responses");
    let mut body = Some(bytes(r#"{"input":"Hi","previous_response_id":"resp_123"}"#));

    let action = run(&filter, &mut ctx, &mut body, true);
    match action {
        FilterAction::Reject(r) => assert_eq!(r.status, 400, "should reject failed status"),
        other => panic!("expected Reject, got {other:?}"),
    }
}

#[test]
fn rejects_when_store_unavailable() {
    let filter = RehydrateFilter;
    let mut ctx: HttpFilterContext<MockStore> = HttpFilterContext::new("POST", None);
    ctx.set_metadata("openai_responses_format.format", "openai_responses");
    let mut body = Some(bytes(r#"{"input":"Hi","previous_response_id":"resp_123"}"#));

    let action = run(&filter, &mut ctx, &mut body, true);
    match action {
        FilterAction::Reject(r) => assert_eq!(r.status, 500, "should reject with 500 when store unavailable"),
        other => panic!("expected Reject, got {other:?}"),
    }
}

#[test]
fn rejects_when_store_not_registered() {
    let registry: ResponseStoreRegistry<MockStore> = ResponseStoreRegistry::new();

    let filter = RehydrateFilter;
    let mut ctx = HttpFilterContext::new("POST", Some(&registry));
    ctx.set_metadata("openai_responses_format.format", "openai_responses");
    let mut body = Some(bytes(r#"{"input":"Hi","previous_response_id":"resp_123"}"#));

    let action = run(&filter, &mut ctx, &mut body, true);
    match action {
        FilterAction::Reject(r) => assert_eq!(r.status, 500, "should reject with 500 when store not registered"),
        other => panic!("expected Reject, got {other:?}"),
    }
}

#[test]
fn rejects_invalid_json_body() {
    let filter = RehydrateFilter;
    let mut ctx: HttpFilterContext<MockStore> = HttpFilterContext::new("POST", None);
    ctx.set_metadata("openai_responses_format.format", "openai_responses");
    let mut body = Some(bytes("not json"));

    let action = run(&filter, &mut ctx, &mut body, true);
    match action {
        FilterAction::Reject(r) => assert_eq!(r.status, 400, "should reject invalid JSON"),
        other => panic!("expected Reject, got {other:?}"),
    }
}

#[test]
fn rejects_non_string_previous_response_id() {
    let filter = RehydrateFilter;
    let mut ctx: HttpFilterContext<MockStore> = HttpFilterContext::new("POST", None);
    ctx.set_metadata("openai_responses_format.format", "openai_responses");
    let mut body = Some(bytes(r#"{"input":"Hi","previous_response_id":123}"#));

    let action = run(&filter, &mut ctx, &mut body, true);
    match action {
        FilterAction::Reject(r) => assert_eq!(r.status, 400, "should reject non-string previous_response_id"),
        other => panic!("expected Reject, got {other:?}"),
    }
}

#[test]
fn rejects_when_store_fetch_fails() {
    let store = MockStore::failing();
    let registry = setup_registry(store);

    let filter = RehydrateFilter;
    let mut ctx = HttpFilterContext::new("POST", Some(&registry));
    ctx.set_metadata("openai_responses_format.format", "openai_responses");
    let mut body = Some(bytes(r#"{"input":"Hi","previous_response_id":"resp_123"}"#));

    let action = run(&filter, &mut ctx, &mut body, true);
    match action {
        FilterAction::Reject(r) => assert_eq!(r.status, 500, "should reject with 500 on store error"),
        other => panic!("expected Reject, got {other:?}"),
    }
}

// -----------------------------------------------------------------------------
// Conversations
// -----------------------------------------------------------------------------

fn conversation_store() -> MockStore {
    MockStore {
        conversations: vec![ConversationRecord {
            conversation_id: "conv_1".to_owned(),
            tenant_id: "acme".to_owned(),
            messages: json(r#"[{"role": "user", "content": "earlier"}]"#),
        }],
        ..MockStore::with_completed_response("resp_prev", string("Hello"), json("[1]"))
    }
}

fn send(store: MockStore, tenant: Option<&str>, text: &str) -> (FilterAction, Option<Vec<u8>>, Vec<Option<String>>) {
    let registry = setup_registry(store);
    let mut ctx = HttpFilterContext::new("POST", Some(&registry));
    ctx.set_metadata("openai_responses_format.format", "openai_responses");
    if let Some(tenant) = tenant {
        ctx.set_metadata("responses.tenant_id", tenant);
    }
    let mut body = Some(bytes(text));
    let action = run(&RehydrateFilter, &mut ctx, &mut body, true);
    let noted = ["responses.previous_response_id", "responses.conversation_id"]
        .iter()
        .map(|key| ctx.get_metadata(key).map(str::to_owned))
        .collect();
    (action, body, noted)
}

#[test]
fn rehydrates_with_conversation() {
    let (action, body, noted) = send(
        conversation_store(),
        Some("acme"),
        r#"{"model": "m", "input": [2, 3], "conversation": {"id": "conv_1"}}"#,
    );
    assert_eq!(action, FilterAction::Release);
    let request = parsed(&body);
    assert_eq!(
        request.get("input"),
        Some(&json(r#"[{"role": "user", "content": "earlier"}, 2, 3]"#))
    );
    assert_eq!(request.get("model"), Some(&string("m")), "the rest of the request is kept");
    assert_eq!(noted, vec![None, Some("conv_1".to_owned())]);
}

#[test]
fn rehydrates_with_a_conversation_named_by_its_id_alone() {
    let (action, body, noted) = send(
        conversation_store(),
        Some("acme"),
        r#"{"input": 2, "conversation": "conv_1"}"#,
    );
    assert_eq!(action, FilterAction::Release);
    assert_eq!(
        parsed(&body).get("input"),
        Some(&json(r#"[{"role": "user", "content": "earlier"}, 2]"#))
    );
    assert_eq!(noted, vec![None, Some("conv_1".to_owned())]);
}

#[test]
fn conversations_of_other_tenants_are_not_found() {
    let text = r#"{"input": 1, "conversation": {"id": "conv_1"}}"#;
    let (action, body, noted) = send(conversation_store(), None, text);
    assert_eq!(action, reject_not_found("conversation 'conv_1' not found"));
    let unknown = r#"{"input": 1, "conversation": {"id": "conv_2"}}"#;
    let (action_for_unknown, _, _) = send(conversation_store(), Some("acme"), unknown);
    assert_eq!(action_for_unknown, reject_not_found("conversation 'conv_2' not found"));
    assert_eq!(body, Some(bytes(text)), "a refused request keeps its body");
    assert_eq!(noted, vec![None, None]);
}

#[test]
fn a_previous_response_comes_before_a_conversation() {
    let (action, body, noted) = send(
        conversation_store(),
        None,
        r#"{"input": 2, "previous_response_id": "resp_prev", "conversation": {"id": "conv_1"}}"#,
    );
    assert_eq!(action, FilterAction::Release);
    assert_eq!(parsed(&body).get("input"), Some(&json("[1, 2]")));
    assert_eq!(noted, vec![Some("resp_prev".to_owned()), None]);
}

#[test]
fn a_failing_store_is_told_for_conversations() {
    let (action, _, _) = send(MockStore::failing(), None, r#"{"conversation": {"id": "c"}}"#);
    assert_eq!(action, reject_server_error("failed to fetch conversation"));
}

#[test]
fn conversations_without_an_id_pass() {
    for text in [
        r#"{"conversation": null}"#,
        r#"{"conversation": {}}"#,
        "[1]",
        "null",
    ] {
        let (action, body, _) = send(conversation_store(), None, text);
        assert_eq!(action, FilterAction::Release);
        assert_eq!(body, Some(bytes(text)));
    }
}

#[test]
fn a_request_without_a_body_is_released() {
    let registry = setup_registry(MockStore::empty());
    let mut ctx = HttpFilterContext::new("POST", Some(&registry));
    ctx.set_metadata("openai_responses_format.format", "openai_responses");
    let mut body = None;
    assert_eq!(run(&RehydrateFilter, &mut ctx, &mut body, true), FilterAction::Release);
    assert_eq!(body, None);
}

#[test]
fn a_request_without_input_gets_a_null_item() {
    let (_, body, _) = send(conversation_store(), None, r#"{"previous_response_id": "resp_prev"}"#);
    assert_eq!(parsed(&body).get("input"), Some(&json("[1, null]")));
}

// -----------------------------------------------------------------------------
// Rejections in words
// -----------------------------------------------------------------------------

#[test]
fn rejections_tell_their_error() {
    let expected = |status, body: &str| {
        FilterAction::Reject(Rejection {
            status,
            headers: vec![("content-type".to_owned(), "application/json".to_owned())],
            body: Some(bytes(body)),
        })
    };
    assert_eq!(
        reject_invalid("no \"such\" thing"),
        expected(
            400,
            r#"{"error":{"code":"invalid_value","message":"no \"such\" thing","type":"invalid_request_error"}}"#
        )
    );
    assert_eq!(
        reject_invalid_json("bad"),
        expected(
            400,
            r#"{"error":{"code":"invalid_json","message":"bad","type":"invalid_request_error"}}"#
        )
    );
    assert_eq!(
        reject_not_found("gone"),
        expected(404, r#"{"error":{"code":"not_found","message":"gone","type":"not_found"}}"#)
    );
    assert_eq!(
        reject_server_error("down"),
        expected(500, r#"{"error":{"code":"server_error","message":"down","type":"server_error"}}"#)
    );
}

#[test]
fn faults_of_requests_in_words() {
    let refused = |text: &str| extract_source(Ok(json(text))).unwrap_err();
    assert_eq!(
        refused(r#"{"previous_response_id": 1, "conversation": 2}"#),
        reject_invalid("previous_response_id must be a string")
    );
    for text in [r#"{"conversation": 1}"#, r#"{"conversation": ["conv_1"]}"#, r#"{"conversation": true}"#] {
        assert_eq!(refused(text), reject_invalid("conversation must be an object"));
    }
    assert_eq!(
        refused(r#"{"conversation": ""}"#),
        reject_invalid("conversation.id must not be empty")
    );
    assert_eq!(
        refused(r#"{"conversation": {"id": null}}"#),
        reject_invalid("conversation.id must be a string")
    );
    assert_eq!(
        refused(r#"{"conversation": {"id": ""}}"#),
        reject_invalid("conversation.id must not be empty")
    );
    assert_eq!(
        refused(r#"{"conversation": {"id": 4}}"#),
        reject_invalid("conversation.id must be a string")
    );
    assert_eq!(
        extract_source(Err("oops".to_owned())).unwrap_err(),
        reject_invalid_json("invalid request body: oops")
    );
    let (action, _, _) = send(MockStore::empty(), None, "not json");
    assert_eq!(
        action,
        reject_invalid_json("invalid request body: expected ident at line 1 column 2")
    );
}

#[test]
fn sources_are_extracted() {
    let request = json(r#"{"previous_response_id": "", "input": 1}"#);
    assert_eq!(
        extract_source(Ok(request.clone())),
        Ok(Some((request, RehydrateSource::PreviousResponse(String::new()))))
    );
    let request = json(r#"{"conversation": {"id": "c"}}"#);
    assert_eq!(
        extract_source(Ok(request.clone())),
        Ok(Some((request, RehydrateSource::Conversation("c".to_owned()))))
    );
    assert_eq!(extract_conversation_id(&json(r#"{"id": "x"}"#)), Ok(Some("x".to_owned())));
    assert_eq!(extract_conversation_id(&json(r#""conv_abc123""#)), Ok(Some("conv_abc123".to_owned())));
}

#[test]
fn faults_of_fetching_in_words() {
    let text = r#"{"input": 1, "previous_response_id": "r"}"#;
    let (action, body, noted) = send(MockStore::empty(), None, text);
    assert_eq!(action, reject_invalid("response 'r' not found"));
    assert_eq!(body, Some(bytes(text)));
    assert_eq!(noted, vec![None, None]);
    let (action, _, _) = send(MockStore::failing(), None, text);
    assert_eq!(action, reject_server_error("failed to fetch previous response"));
    let (action, _, _) = send(MockStore::with_status("r", "failed"), None, text);
    assert_eq!(action, reject_invalid("cannot continue from response with status 'failed'"));
}

#[test]
fn a_missing_status_is_unknown() {
    let stored = record("r", json(r#"{"status": 3}"#), Json::Null, Json::Null);
    assert_eq!(
        validate_response_status(&stored),
        Err(reject_invalid("cannot continue from response with status 'unknown'"))
    );
    let completed = record("r", json(r#"{"status": "completed"}"#), Json::Null, Json::Null);
    assert_eq!(validate_response_status(&completed), Ok(()));
}

// -----------------------------------------------------------------------------
// Message assembly
// -----------------------------------------------------------------------------

#[test]
fn histories_are_assembled() {
    let previous = |input: &str, messages: &str| {
        let object = json(r#"{"output": ["out"]}"#);
        assemble_previous_messages(&record("r", object, json(input), json(messages)))
    };
    assert_eq!(previous("1", "[2, 3]"), json("[2, 3]"));
    assert_eq!(previous("1", "[]"), json(r#"[1, "out"]"#));
    assert_eq!(previous("[4, 5]", "null"), json(r#"[4, 5, "out"]"#));
    assert_eq!(previous("null", "{}"), json(r#"["out"]"#));
    let bare = record("r", json("{}"), json("1"), json("null"));
    assert_eq!(assemble_previous_messages(&bare), json("[1]"));
}

#[test]
fn history_and_input_make_one_array() {
    assert_eq!(assemble_conversation(json("[1, 2]"), json("[3]")), json("[1, 2, 3]"));
    assert_eq!(assemble_conversation(json("1"), json(r#""a""#)), json(r#"[1, "a"]"#));
    assert_eq!(assemble_conversation(json("[]"), Json::Null), json("[null]"));
}

#[test]
fn the_new_body_is_the_enriched_request() {
    let mut request = json(r#"{"input": "now", "z": 0}"#);
    let mut body = None;
    let stored = record("r", json("{}"), Json::Null, json("[1]"));
    write_enriched_body(&mut request, &stored, &mut body).unwrap();
    assert_eq!(body, Some(bytes(r#"{"input":[1,"now"],"z":0}"#)));
    assert_eq!(parsed(&body), request);
}

#[test]
fn the_filter_wants_the_whole_body() {
    assert_eq!(
        RehydrateFilter.request_body_mode(),
        BodyMode::StreamBuffer { max_bytes: Some(MAX_JSON_BODY_BYTES) }
    );
    let ctx: HttpFilterContext<MockStore> = HttpFilterContext::new("POST", None);
    assert_eq!(RehydrateFilter.on_request(&ctx), Ok(FilterAction::Continue));
}

#[test]
fn notes_are_replaced_by_key() {
    let mut ctx: HttpFilterContext<MockStore> = HttpFilterContext::new("GET", None);
    assert_eq!(ctx.get_metadata("a"), None);
    ctx.set_metadata("a", "1");
    ctx.set_metadata("b", "2");
    ctx.set_metadata("a", "3");
    assert_eq!(ctx.get_metadata("a"), Some("3"));
    assert_eq!(ctx.get_metadata("b"), Some("2"));
}
