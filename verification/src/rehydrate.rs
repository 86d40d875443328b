//! The rehydrate filter.
//!
//! A request that names a previous response or a conversation gets the stored
//! history put before its own input. The filter first says what to fetch
//! ([`RehydrateFilter::on_request_body`]); what was fetched is handed to
//! [`rehydrate_from_previous_response`] or [`rehydrate_from_conversation`].

use vstd::prelude::*;

use crate::body::{BodyAccess, BodyMode, MAX_JSON_BODY_BYTES};
use crate::filter::{ActionView, FilterAction, FilterError, HttpFilterContext, Rejection, RejectionView};
use crate::json::{Json, JsonView, Reading};
use crate::store::types::{ConversationRecord, ConversationView, ResponseRecord, ResponseView, StoreError};
use crate::text::{joined, joined3, same_text};

verus! {

/// The name of the store that is asked.
pub const DEFAULT_STORE_NAME: &'static str = "default";

/// Where the tenant of a request is noted.
pub const TENANT_METADATA_KEY: &'static str = "responses.tenant_id";

/// The tenant of a request of which none is noted.
pub const DEFAULT_TENANT_ID: &'static str = "default";

/// Where the format of a request is noted.
pub const FORMAT_METADATA_KEY: &'static str = "openai_responses_format.format";

/// The format of the requests that are rehydrated.
pub const RESPONSES_FORMAT: &'static str = "openai_responses";

/// Where the previous response of a rehydrated request is noted.
pub const PREVIOUS_RESPONSE_METADATA_KEY: &'static str = "responses.previous_response_id";

/// Where the conversation of a rehydrated request is noted.
pub const CONVERSATION_METADATA_KEY: &'static str = "responses.conversation_id";

// ---------------------------------------------------------------------------
// Rejections
// ---------------------------------------------------------------------------

/// The JSON that tells an error: a message for people, the type of the error and
/// a code for it.
pub open spec fn error_json(message: Seq<char>, kind: Seq<char>, code: Seq<char>) -> JsonView {
    JsonView::Object(Map::empty().insert("error"@, error_detail(message, kind, code)))
}

/// What an error's JSON holds under `error`.
pub open spec fn error_detail(message: Seq<char>, kind: Seq<char>, code: Seq<char>) -> JsonView {
    JsonView::Object(
        Map::empty().insert("message"@, JsonView::String(message)).insert("type"@, JsonView::String(kind)).insert(
            "code"@,
            JsonView::String(code),
        ),
    )
}

/// A rejection that tells an error.
pub open spec fn rejected(status: u16, message: Seq<char>, kind: Seq<char>, code: Seq<char>) -> ActionView {
    ActionView::Reject(
        RejectionView {
            status,
            headers: seq![("content-type"@, "application/json"@)],
            body: Some(crate::json::json_bytes(error_json(message, kind, code))),
        },
    )
}

/// A rejection of a value that the client sent.
pub open spec fn invalid_request(message: Seq<char>) -> ActionView {
    rejected(400, message, "invalid_request_error"@, "invalid_value"@)
}

/// A rejection of a body that is no JSON.
pub open spec fn invalid_json(message: Seq<char>) -> ActionView {
    rejected(400, message, "invalid_request_error"@, "invalid_json"@)
}

/// A rejection for want of what the client asked for.
pub open spec fn not_found(message: Seq<char>) -> ActionView {
    rejected(404, message, "not_found"@, "not_found"@)
}

/// A rejection for a fault of the server.
pub open spec fn server_error(message: Seq<char>) -> ActionView {
    rejected(500, message, "server_error"@, "server_error"@)
}

fn error_reply(status: u16, message: &str, kind: &str, code: &str) -> (action: FilterAction)
    ensures
        action@ == rejected(status, message@, kind@, code@),
        crate::json::json_of_bytes(crate::json::json_bytes(error_json(message@, kind@, code@))) == Reading::Ok(
            error_json(message@, kind@, code@),
        ),
{
    let detail: Vec<(String, Json)> = vec![
        ("message".to_owned(), Json::String(message.to_owned())),
        ("type".to_owned(), Json::String(kind.to_owned())),
        ("code".to_owned(), Json::String(code.to_owned())),
    ];
    let whole: Vec<(String, Json)> = vec![("error".to_owned(), Json::Object(detail))];
    proof {
        let inner = crate::json::member_views(detail@);
        assert(inner.drop_last().drop_last().drop_last() =~= Seq::empty());
        assert(inner.drop_last().drop_last().last() == ("message"@, JsonView::String(message@)));
        assert(inner.drop_last().last() == ("type"@, JsonView::String(kind@)));
        assert(inner.last() == ("code"@, JsonView::String(code@)));
        reveal_with_fuel(crate::json::entries_map, 4);
        assert(whole@[0].1@ == error_detail(message@, kind@, code@));
        let outer = crate::json::member_views(whole@);
        assert(outer.drop_last() =~= Seq::empty());
        assert(outer.last() == ("error"@, error_detail(message@, kind@, code@)));
    }
    let json = Json::Object(whole);
    assert(json@ == error_json(message@, kind@, code@));
    proof {
        reveal_with_fuel(JsonView::survives_bytes, 3);
        assert(json@.survives_bytes(crate::json::READABLE_LEVELS as nat));
    }
    let rejection = Rejection::status(status).with_header("content-type", "application/json");
    let rejection = match json.to_bytes() {
        Ok(bytes) => rejection.with_body(bytes),
        Err(_) => rejection,
    };
    assert(rejection@.headers =~= seq![("content-type"@, "application/json"@)]);
    FilterAction::Reject(rejection)
}

/// Rejects a value that the client sent. The body is JSON that tells the error.
pub fn reject_invalid(message: &str) -> (action: FilterAction)
    ensures
        action@ == invalid_request(message@),
        crate::json::json_of_bytes(action@->Reject_0.body->0) == Reading::Ok(
            error_json(message@, "invalid_request_error"@, "invalid_value"@),
        ),
{
    error_reply(400, message, "invalid_request_error", "invalid_value")
}

/// Rejects a body that is no JSON. The body of the answer is JSON that tells the
/// error.
pub fn reject_invalid_json(message: &str) -> (action: FilterAction)
    ensures
        action@ == invalid_json(message@),
        crate::json::json_of_bytes(action@->Reject_0.body->0) == Reading::Ok(
            error_json(message@, "invalid_request_error"@, "invalid_json"@),
        ),
{
    error_reply(400, message, "invalid_request_error", "invalid_json")
}

/// Rejects for want of what the client asked for. The body is JSON that tells
/// the error.
pub fn reject_not_found(message: &str) -> (action: FilterAction)
    ensures
        action@ == not_found(message@),
        crate::json::json_of_bytes(action@->Reject_0.body->0) == Reading::Ok(
            error_json(message@, "not_found"@, "not_found"@),
        ),
{
    error_reply(404, message, "not_found", "not_found")
}

/// Rejects for a fault of the server. The body is JSON that tells the error.
pub fn reject_server_error(message: &str) -> (action: FilterAction)
    ensures
        action@ == server_error(message@),
        crate::json::json_of_bytes(action@->Reject_0.body->0) == Reading::Ok(
            error_json(message@, "server_error"@, "server_error"@),
        ),
{
    error_reply(500, message, "server_error", "server_error")
}

// ---------------------------------------------------------------------------
// Source
// ---------------------------------------------------------------------------

/// Where the history of a request comes from.
#[derive(Debug, PartialEq, Eq)]
pub enum RehydrateSource {
    /// From the response of this ID.
    PreviousResponse(String),
    /// From the conversation of this ID.
    Conversation(String),
}

/// What a source denotes.
#[verifier::ext_equal]
pub enum SourceView {
    PreviousResponse(Seq<char>),
    Conversation(Seq<char>),
}

impl View for RehydrateSource {
    type V = SourceView;

    open spec fn view(&self) -> SourceView {
        match self {
            RehydrateSource::PreviousResponse(id) => SourceView::PreviousResponse(id@),
            RehydrateSource::Conversation(id) => SourceView::Conversation(id@),
        }
    }
}

/// A conversation ID that a request gives: any but the empty one.
pub open spec fn given_conversation_id(id: Seq<char>) -> Result<Option<Seq<char>>, ActionView> {
    if id.len() > 0 {
        Ok(Some(id))
    } else {
        Err(invalid_request("conversation.id must not be empty"@))
    }
}

/// The ID in the `conversation` of a request, if it has one: the string itself,
/// or the `id` of the object.
pub open spec fn conversation_id_in(conversation: JsonView) -> Result<Option<Seq<char>>, ActionView> {
    match conversation {
        JsonView::Null => Ok(None),
        JsonView::String(id) => given_conversation_id(id),
        JsonView::Object(_) => match conversation.member("id"@) {
            Some(JsonView::String(id)) => given_conversation_id(id),
            None => Ok(None),
            Some(_) => Err(invalid_request("conversation.id must be a string"@)),
        },
        _ => Err(invalid_request("conversation must be an object"@)),
    }
}

/// Where the history of a request comes from, if it names any: a previous
/// response before a conversation.
pub open spec fn source_in(request: JsonView) -> Result<Option<SourceView>, ActionView> {
    match request.member("previous_response_id"@) {
        Some(JsonView::String(id)) => Ok(Some(SourceView::PreviousResponse(id))),
        Some(JsonView::Null) => conversation_source_in(request),
        None => conversation_source_in(request),
        Some(_) => Err(invalid_request("previous_response_id must be a string"@)),
    }
}

/// The conversation that a request names, if it names one.
pub open spec fn conversation_source_in(request: JsonView) -> Result<Option<SourceView>, ActionView> {
    match request.member("conversation"@) {
        None => Ok(None),
        Some(conversation) => match conversation_id_in(conversation) {
            Ok(Some(id)) => Ok(Some(SourceView::Conversation(id))),
            Ok(None) => Ok(None),
            Err(action) => Err(action),
        },
    }
}

/// What was made of a request body: the request and its source, where there is
/// one.
pub open spec fn source_of_reading(reading: Reading) -> Result<Option<(JsonView, SourceView)>, ActionView> {
    match reading {
        Err(message) => Err(invalid_json("invalid request body: "@ + message)),
        Ok(request) => match source_in(request) {
            Ok(Some(source)) => Ok(Some((request, source))),
            Ok(None) => Ok(None),
            Err(action) => Err(action),
        },
    }
}

/// A result of reading, by what it denotes.
pub open spec fn reading_of(read: Result<Json, String>) -> Reading {
    match read {
        Ok(json) => Ok(json@),
        Err(message) => Err(message@),
    }
}

/// Whether a function's result is a given request and source, none, or a
/// rejection.
pub open spec fn is_extracted(
    extracted: Result<Option<(Json, RehydrateSource)>, FilterAction>,
    expected: Result<Option<(JsonView, SourceView)>, ActionView>,
) -> bool {
    match (extracted, expected) {
        (Ok(Some((json, source))), Ok(Some((request, from)))) => json@ == request && source@ == from,
        (Ok(None), Ok(None)) => true,
        (Err(action), Err(rejection)) => action@ == rejection,
        _ => false,
    }
}

fn conversation_id_of(id: &String) -> (given: Result<Option<String>, FilterAction>)
    ensures
        match (given, given_conversation_id(id@)) {
            (Ok(Some(given)), Ok(Some(expected))) => given@ == expected,
            (Err(action), Err(rejection)) => action@ == rejection,
            _ => false,
        },
{
    proof {
        reveal_strlit("");
    }
    if same_text(id.as_str(), "") {
        assert(id@.len() == 0);
        Err(reject_invalid("conversation.id must not be empty"))
    } else {
        assert(id@.len() == 0 ==> id@ =~= ""@);
        Ok(Some(id.clone()))
    }
}

/// The ID in the `conversation` of a request, which is a string or an object
/// with an `id`: none where it is `null` or an object without `id`.
pub fn extract_conversation_id(conversation: &Json) -> (id: Result<Option<String>, FilterAction>)
    ensures
        match (id, conversation_id_in(conversation@)) {
            (Ok(Some(id)), Ok(Some(expected))) => id@ == expected,
            (Ok(None), Ok(None)) => true,
            (Err(action), Err(rejection)) => action@ == rejection,
            _ => false,
        },
{
    match conversation {
        Json::Null => Ok(None),
        Json::String(id) => conversation_id_of(id),
        Json::Object(_) => match conversation.get("id") {
            Some(Json::String(id)) => conversation_id_of(id),
            None => Ok(None),
            Some(_) => Err(reject_invalid("conversation.id must be a string")),
        },
        _ => Err(reject_invalid("conversation must be an object")),
    }
}

/// The source that a request names, from what was read of its body.
pub fn extract_source(read: Result<Json, String>) -> (extracted: Result<
    Option<(Json, RehydrateSource)>,
    FilterAction,
>)
    ensures
        is_extracted(extracted, source_of_reading(reading_of(read))),
{
    let request = match read {
        Ok(request) => request,
        Err(message) => {
            let text = joined("invalid request body: ", message.as_str());
            return Err(reject_invalid_json(text.as_str()));
        },
    };
    let previous = match request.get("previous_response_id") {
        Some(Json::String(id)) => Some(id.clone()),
        Some(Json::Null) => None,
        None => None,
        Some(_) => {
            return Err(reject_invalid("previous_response_id must be a string"));
        },
    };
    if let Some(id) = previous {
        return Ok(Some((request, RehydrateSource::PreviousResponse(id))));
    }
    let conversation = match request.get("conversation") {
        None => None,
        Some(conversation) => match extract_conversation_id(conversation) {
            Ok(id) => id,
            Err(action) => {
                return Err(action);
            },
        },
    };
    match conversation {
        Some(id) => Ok(Some((request, RehydrateSource::Conversation(id)))),
        None => Ok(None),
    }
}

/// Reads a request body and finds the source that it names: a previous response
/// before a conversation.
pub fn parse_body_and_extract_source(bytes: &[u8]) -> (extracted: Result<
    Option<(Json, RehydrateSource)>,
    FilterAction,
>)
    ensures
        is_extracted(extracted, source_of_reading(crate::json::json_of_bytes(bytes@))),
{
    extract_source(Json::from_bytes(bytes))
}

// ---------------------------------------------------------------------------
// What to fetch
// ---------------------------------------------------------------------------

/// A record to fetch.
pub struct Fetch<'a, T> {
    /// From which store.
    pub store: &'a T,
    /// Whose record.
    pub tenant_id: String,
    /// The record's ID.
    pub id: String,
    /// The request, to go on with.
    pub request: Json,
}

/// What a fetch denotes.
pub struct FetchView<T> {
    pub store: T,
    pub tenant_id: Seq<char>,
    pub id: Seq<char>,
    pub request: JsonView,
}

impl<'a, T> View for Fetch<'a, T> {
    type V = FetchView<T>;

    open spec fn view(&self) -> FetchView<T> {
        FetchView { store: *self.store, tenant_id: self.tenant_id@, id: self.id@, request: self.request@ }
    }
}

/// What comes next.
pub enum Step<'a, T> {
    /// The filter has decided. The body stays as it is.
    Done(FilterAction),
    /// A response is needed.
    FetchResponse(Fetch<'a, T>),
    /// A conversation is needed.
    FetchConversation(Fetch<'a, T>),
}

/// What a step denotes.
pub enum StepView<T> {
    Done(ActionView),
    FetchResponse(FetchView<T>),
    FetchConversation(FetchView<T>),
}

impl<'a, T> View for Step<'a, T> {
    type V = StepView<T>;

    open spec fn view(&self) -> StepView<T> {
        match self {
            Step::Done(action) => StepView::Done(action@),
            Step::FetchResponse(fetch) => StepView::FetchResponse(fetch@),
            Step::FetchConversation(fetch) => StepView::FetchConversation(fetch@),
        }
    }
}

/// The store that is asked: the default one of the server.
pub open spec fn store_in<'a, T>(ctx: HttpFilterContext<'a, T>) -> Result<T, ActionView> {
    match ctx.response_stores {
        Some(registry) => if registry@.contains_key(DEFAULT_STORE_NAME@) {
            Ok(registry@[DEFAULT_STORE_NAME@])
        } else {
            Err(server_error("response store is not available"@))
        },
        None => Err(server_error("response store is not available"@)),
    }
}

/// The tenant of a request.
pub open spec fn tenant_in<'a, T>(ctx: HttpFilterContext<'a, T>) -> Seq<char> {
    if ctx.metadata@.contains_key(TENANT_METADATA_KEY@) {
        ctx.metadata@[TENANT_METADATA_KEY@]
    } else {
        DEFAULT_TENANT_ID@
    }
}

/// What comes next for a request that is to be rehydrated.
pub open spec fn body_step<'a, T>(ctx: HttpFilterContext<'a, T>, body: Option<Vec<u8>>) -> StepView<T> {
    match body {
        None => StepView::Done(ActionView::Release),
        Some(bytes) => match source_of_reading(crate::json::json_of_bytes(bytes@)) {
            Err(action) => StepView::Done(action),
            Ok(None) => StepView::Done(ActionView::Release),
            Ok(Some((request, source))) => source_step(ctx, request, source),
        },
    }
}

/// What comes next for a request that names a source.
pub open spec fn source_step<'a, T>(
    ctx: HttpFilterContext<'a, T>,
    request: JsonView,
    source: SourceView,
) -> StepView<T> {
    match (store_in(ctx), source) {
        (Err(action), _) => StepView::Done(action),
        (Ok(store), SourceView::PreviousResponse(id)) => StepView::FetchResponse(
            FetchView { store, tenant_id: tenant_in(ctx), id, request },
        ),
        (Ok(store), SourceView::Conversation(id)) => StepView::FetchConversation(
            FetchView { store, tenant_id: tenant_in(ctx), id, request },
        ),
    }
}

/// What comes next for a request: it is rehydrated where it is a POST in the
/// Responses format and its body is complete.
pub open spec fn request_step<'a, T>(
    ctx: HttpFilterContext<'a, T>,
    body: Option<Vec<u8>>,
    end_of_stream: bool,
) -> StepView<T> {
    if !end_of_stream || ctx.method@ != "POST"@ {
        StepView::Done(ActionView::Continue)
    } else if !(ctx.metadata@.contains_key(FORMAT_METADATA_KEY@) && ctx.metadata@[FORMAT_METADATA_KEY@]
        == RESPONSES_FORMAT@) {
        StepView::Done(ActionView::Release)
    } else {
        body_step(ctx, body)
    }
}

/// The store that is asked: the default one of the server.
pub fn resolve_store<'a, T>(ctx: &HttpFilterContext<'a, T>) -> (store: Result<&'a T, FilterAction>)
    ensures
        match (store, store_in(*ctx)) {
            (Ok(store), Ok(expected)) => *store == expected,
            (Err(action), Err(rejection)) => action@ == rejection,
            _ => false,
        },
{
    match ctx.response_stores {
        Some(registry) => match registry.get(DEFAULT_STORE_NAME) {
            Some(store) => Ok(store),
            None => Err(reject_server_error("response store is not available")),
        },
        None => Err(reject_server_error("response store is not available")),
    }
}

/// What comes next for a request that names a source.
pub fn fetch_for_source<'a, T>(ctx: &HttpFilterContext<'a, T>, request: Json, source: RehydrateSource) -> (step: Step<
    'a,
    T,
>)
    ensures
        step@ == source_step(*ctx, request@, source@),
{
    let tenant_id = match ctx.get_metadata(TENANT_METADATA_KEY) {
        Some(tenant_id) => tenant_id.to_owned(),
        None => DEFAULT_TENANT_ID.to_owned(),
    };
    let store = match resolve_store(ctx) {
        Ok(store) => store,
        Err(action) => {
            return Step::Done(action);
        },
    };
    match source {
        RehydrateSource::PreviousResponse(id) => Step::FetchResponse(Fetch { store, tenant_id, id, request }),
        RehydrateSource::Conversation(id) => Step::FetchConversation(Fetch { store, tenant_id, id, request }),
    }
}

/// What comes next for a request that is to be rehydrated.
pub fn rehydrate_body<'a, T>(ctx: &HttpFilterContext<'a, T>, body: &Option<Vec<u8>>) -> (step: Step<'a, T>)
    ensures
        step@ == body_step(*ctx, *body),
{
    let bytes = match body {
        Some(bytes) => bytes,
        None => {
            return Step::Done(FilterAction::Release);
        },
    };
    match parse_body_and_extract_source(bytes.as_slice()) {
        Ok(Some((request, source))) => fetch_for_source(ctx, request, source),
        Ok(None) => Step::Done(FilterAction::Release),
        Err(action) => Step::Done(action),
    }
}

// ---------------------------------------------------------------------------
// Message assembly
// ---------------------------------------------------------------------------

/// A value as a list of items: an array's items, or the value itself.
pub open spec fn as_items(value: JsonView) -> Seq<JsonView> {
    match value {
        JsonView::Array(items) => items,
        _ => seq![value],
    }
}

/// Stored history and current input in one array.
pub open spec fn conversation_of(previous: JsonView, current: JsonView) -> JsonView {
    JsonView::Array(as_items(previous) + as_items(current))
}

/// The items of a stored input; none where it is `null`.
pub open spec fn input_items(input: JsonView) -> Seq<JsonView> {
    match input {
        JsonView::Null => Seq::empty(),
        _ => as_items(input),
    }
}

/// The items that a response object has put out.
pub open spec fn output_items(response_object: JsonView) -> Seq<JsonView> {
    match response_object.member("output"@) {
        Some(JsonView::Array(items)) => items,
        _ => Seq::empty(),
    }
}

/// The history that a stored response leads up to: its messages, or its input
/// and output where there are none.
pub open spec fn previous_messages(record: ResponseView) -> JsonView {
    match record.messages {
        JsonView::Array(items) => if items.len() > 0 {
            record.messages
        } else {
            JsonView::Array(input_items(record.input) + output_items(record.response_object))
        },
        _ => JsonView::Array(input_items(record.input) + output_items(record.response_object)),
    }
}

/// The input of a request; `null` where it has none.
pub open spec fn current_input(request: JsonView) -> JsonView {
    match request.member("input"@) {
        Some(input) => input,
        None => JsonView::Null,
    }
}

/// A request with stored history put before its input.
pub open spec fn enriched(request: JsonView, previous: JsonView) -> JsonView {
    request.with_member("input"@, conversation_of(previous, current_input(request)))
}

/// Appends copies of items.
fn append_copies(items: &mut Vec<Json>, more: &Vec<Json>)
    ensures
        crate::json::item_views(final(items)@) == crate::json::item_views(old(items)@) + crate::json::item_views(more@),
{
    let ghost before = items@;
    for i in 0..more.len()
        invariant
            items@.len() == before.len() + i,
            forall|j: int| 0 <= j < before.len() ==> items@[j] == before[j],
            forall|j: int| 0 <= j < i ==> (#[trigger] items@[before.len() + j])@ == more@[j]@,
    {
        items.push(more[i].clone());
    }
    let ghost views = crate::json::item_views(before) + crate::json::item_views(more@);
    assert forall|j: int| 0 <= j < items@.len() implies #[trigger] crate::json::item_views(items@)[j] == views[j] by {
        if j >= before.len() {
            assert(items@[before.len() + (j - before.len())]@ == more@[j - before.len()]@);
        }
    }
    assert(crate::json::item_views(items@) =~= views);
}

/// The history that a stored response leads up to.
pub fn assemble_previous_messages(record: &ResponseRecord) -> (previous: Json)
    ensures
        previous@ == previous_messages(record@),
{
    if let Json::Array(items) = &record.messages {
        if items.len() > 0 {
            return record.messages.clone();
        }
    }
    let mut reconstructed: Vec<Json> = Vec::new();
    assert(crate::json::item_views(reconstructed@) =~= Seq::empty());
    match &record.input {
        Json::Null => {},
        Json::Array(items) => {
            append_copies(&mut reconstructed, items);
        },
        other => {
            reconstructed.push(other.clone());
            assert(crate::json::item_views(reconstructed@) =~= seq![other@]);
        },
    }
    assert(crate::json::item_views(reconstructed@) =~= input_items(record@.input));
    if let Some(Json::Array(items)) = record.response_object.get("output") {
        append_copies(&mut reconstructed, items);
    } else {
        assert(input_items(record@.input) + output_items(record@.response_object) =~= input_items(record@.input));
    }
    Json::Array(reconstructed)
}

fn into_items(value: Json) -> (items: Vec<Json>)
    ensures
        crate::json::item_views(items@) == as_items(value@),
{
    match value {
        Json::Array(items) => items,
        other => {
            let items: Vec<Json> = vec![other];
            assert(crate::json::item_views(items@) =~= seq![other@]);
            items
        },
    }
}

/// Stored history and current input in one array.
pub fn assemble_conversation(previous: Json, current: Json) -> (whole: Json)
    ensures
        whole@ == conversation_of(previous@, current@),
{
    let mut items = into_items(previous);
    let mut more = into_items(current);
    let ghost before = items@;
    let ghost added = more@;
    items.append(&mut more);
    assert(crate::json::item_views(items@) =~= crate::json::item_views(before) + crate::json::item_views(added));
    Json::Array(items)
}

/// Puts stored history before the input of a request, and writes the request as
/// the new body.
fn write_history(request: &mut Json, previous: Json, body: &mut Option<Vec<u8>>) -> (written: Result<(), FilterError>)
    requires
        old(request)@ is Object || old(request)@ is Null,
    ensures
        written is Ok,
        final(request)@ == enriched(old(request)@, previous@),
        *final(body) matches Some(bytes) && bytes@ == crate::json::json_bytes(final(request)@),
        final(request)@.survives_bytes(crate::json::READABLE_LEVELS as nat) ==> crate::json::json_of_bytes(
            crate::json::json_bytes(final(request)@),
        ) == Reading::Ok(final(request)@),
{
    let input = match request.get("input") {
        Some(input) => input.clone(),
        None => Json::Null,
    };
    request.set("input", assemble_conversation(previous, input));
    match request.to_bytes() {
        Ok(bytes) => {
            *body = Some(bytes);
            Ok(())
        },
        Err(message) => Err(
            FilterError { message: joined("failed to serialize rehydrated body: ", message.as_str()) },
        ),
    }
}

/// Puts the history of a stored response before the input of a request, and
/// writes the request as the new body.
pub fn write_enriched_body(request: &mut Json, record: &ResponseRecord, body: &mut Option<Vec<u8>>) -> (written: Result<
    (),
    FilterError,
>)
    requires
        old(request)@ is Object || old(request)@ is Null,
    ensures
        written is Ok,
        final(request)@ == enriched(old(request)@, previous_messages(record@)),
        *final(body) matches Some(bytes) && bytes@ == crate::json::json_bytes(final(request)@),
        final(request)@.survives_bytes(crate::json::READABLE_LEVELS as nat) ==> crate::json::json_of_bytes(
            crate::json::json_bytes(final(request)@),
        ) == Reading::Ok(final(request)@),
{
    let previous = assemble_previous_messages(record);
    write_history(request, previous, body)
}

// ---------------------------------------------------------------------------
// What was fetched
// ---------------------------------------------------------------------------

/// The status of a stored response.
pub open spec fn status_in(response_object: JsonView) -> Seq<char> {
    match response_object.member("status"@) {
        Some(JsonView::String(status)) => status,
        _ => "unknown"@,
    }
}

/// The response to continue from, or why there is none.
pub open spec fn usable_response(
    fetched: Result<Option<ResponseRecord>, StoreError>,
    id: Seq<char>,
) -> Result<ResponseView, ActionView> {
    match fetched {
        Err(_) => Err(server_error("failed to fetch previous response"@)),
        Ok(None) => Err(invalid_request("response '"@ + id + "' not found"@)),
        Ok(Some(record)) => if status_in(record@.response_object) == "completed"@ {
            Ok(record@)
        } else {
            Err(
                invalid_request(
                    "cannot continue from response with status '"@ + status_in(record@.response_object) + "'"@,
                ),
            )
        },
    }
}

/// The conversation to continue, or why there is none.
pub open spec fn usable_conversation(
    fetched: Result<Option<ConversationRecord>, StoreError>,
    id: Seq<char>,
) -> Result<ConversationView, ActionView> {
    match fetched {
        Err(_) => Err(server_error("failed to fetch conversation"@)),
        Ok(None) => Err(not_found("conversation '"@ + id + "' not found"@)),
        Ok(Some(record)) => Ok(record@),
    }
}

/// The response that was fetched, or a rejection where there is none.
pub fn fetch_previous_response(fetched: Result<Option<ResponseRecord>, StoreError>, id: &str) -> (found: Result<
    ResponseRecord,
    FilterAction,
>)
    ensures
        match (fetched, found) {
            (Ok(Some(record)), Ok(given)) => given == record,
            (Ok(None), Err(action)) => action@ == invalid_request("response '"@ + id@ + "' not found"@),
            (Err(_), Err(action)) => action@ == server_error("failed to fetch previous response"@),
            _ => false,
        },
{
    match fetched {
        Ok(Some(record)) => Ok(record),
        Ok(None) => {
            let message = joined3("response '", id, "' not found");
            Err(reject_invalid(message.as_str()))
        },
        Err(_) => Err(reject_server_error("failed to fetch previous response")),
    }
}

/// The conversation that was fetched, or a rejection where there is none.
pub fn fetch_conversation(fetched: Result<Option<ConversationRecord>, StoreError>, id: &str) -> (found: Result<
    ConversationRecord,
    FilterAction,
>)
    ensures
        match (fetched, found) {
            (Ok(Some(record)), Ok(given)) => given == record,
            (Ok(None), Err(action)) => action@ == not_found("conversation '"@ + id@ + "' not found"@),
            (Err(_), Err(action)) => action@ == server_error("failed to fetch conversation"@),
            _ => false,
        },
{
    match fetched {
        Ok(Some(record)) => Ok(record),
        Ok(None) => {
            let message = joined3("conversation '", id, "' not found");
            Err(reject_not_found(message.as_str()))
        },
        Err(_) => Err(reject_server_error("failed to fetch conversation")),
    }
}

/// Accepts a stored response that is completed.
pub fn validate_response_status(record: &ResponseRecord) -> (checked: Result<(), FilterAction>)
    ensures
        match checked {
            Ok(_) => status_in(record@.response_object) == "completed"@,
            Err(action) => status_in(record@.response_object) != "completed"@ && action@ == invalid_request(
                "cannot continue from response with status '"@ + status_in(record@.response_object) + "'"@,
            ),
        },
{
    let status: &str = match record.response_object.get("status") {
        Some(Json::String(status)) => status.as_str(),
        _ => "unknown",
    };
    if same_text(status, "completed") {
        Ok(())
    } else {
        let message = joined3("cannot continue from response with status '", status, "'");
        Err(reject_invalid(message.as_str()))
    }
}

/// Goes on with a request once the previous response that it names was fetched.
/// Where there is none to continue from, the body and what is noted of the
/// request stay as they are.
pub fn rehydrate_from_previous_response<'a, T>(
    ctx: &mut HttpFilterContext<'a, T>,
    request: &mut Json,
    body: &mut Option<Vec<u8>>,
    id: &str,
    fetched: Result<Option<ResponseRecord>, StoreError>,
) -> (decided: Result<FilterAction, FilterError>)
    requires
        old(request)@ is Object || old(request)@ is Null,
    ensures
        decided is Ok,
        final(ctx).method == old(ctx).method,
        final(ctx).response_stores == old(ctx).response_stores,
        match usable_response(fetched, id@) {
            Err(action) => {
                &&& decided->Ok_0@ == action
                &&& *final(request) == *old(request)
                &&& *final(body) == *old(body)
                &&& final(ctx).metadata@ == old(ctx).metadata@
            },
            Ok(record) => {
                &&& decided->Ok_0@ == ActionView::Release
                &&& final(request)@ == enriched(old(request)@, previous_messages(record))
                &&& *final(body) matches Some(bytes) && bytes@ == crate::json::json_bytes(final(request)@)
                &&& final(request)@.survives_bytes(crate::json::READABLE_LEVELS as nat)
                    ==> crate::json::json_of_bytes(crate::json::json_bytes(final(request)@)) == Reading::Ok(
                    final(request)@,
                )
                &&& final(ctx).metadata@ == old(ctx).metadata@.insert(PREVIOUS_RESPONSE_METADATA_KEY@, id@)
            },
        },
{
    let record = match fetch_previous_response(fetched, id) {
        Ok(record) => record,
        Err(action) => {
            return Ok(action);
        },
    };
    match validate_response_status(&record) {
        Ok(_) => {},
        Err(action) => {
            return Ok(action);
        },
    }
    match write_enriched_body(request, &record, body) {
        Ok(_) => {},
        Err(error) => {
            return Err(error);
        },
    }
    ctx.set_metadata(PREVIOUS_RESPONSE_METADATA_KEY, id);
    Ok(FilterAction::Release)
}

/// Goes on with a request once the conversation that it names was fetched. Where
/// there is none, the body and what is noted of the request stay as they are.
pub fn rehydrate_from_conversation<'a, T>(
    ctx: &mut HttpFilterContext<'a, T>,
    request: &mut Json,
    body: &mut Option<Vec<u8>>,
    id: &str,
    fetched: Result<Option<ConversationRecord>, StoreError>,
) -> (decided: Result<FilterAction, FilterError>)
    requires
        old(request)@ is Object || old(request)@ is Null,
    ensures
        decided is Ok,
        final(ctx).method == old(ctx).method,
        final(ctx).response_stores == old(ctx).response_stores,
        match usable_conversation(fetched, id@) {
            Err(action) => {
                &&& decided->Ok_0@ == action
                &&& *final(request) == *old(request)
                &&& *final(body) == *old(body)
                &&& final(ctx).metadata@ == old(ctx).metadata@
            },
            Ok(record) => {
                &&& decided->Ok_0@ == ActionView::Release
                &&& final(request)@ == enriched(old(request)@, record.messages)
                &&& *final(body) matches Some(bytes) && bytes@ == crate::json::json_bytes(final(request)@)
                &&& final(request)@.survives_bytes(crate::json::READABLE_LEVELS as nat)
                    ==> crate::json::json_of_bytes(crate::json::json_bytes(final(request)@)) == Reading::Ok(
                    final(request)@,
                )
                &&& final(ctx).metadata@ == old(ctx).metadata@.insert(CONVERSATION_METADATA_KEY@, id@)
            },
        },
{
    let record = match fetch_conversation(fetched, id) {
        Ok(record) => record,
        Err(action) => {
            return Ok(action);
        },
    };
    match write_history(request, record.messages, body) {
        Ok(_) => {},
        Err(error) => {
            return Err(error);
        },
    }
    ctx.set_metadata(CONVERSATION_METADATA_KEY, id);
    Ok(FilterAction::Release)
}

// ---------------------------------------------------------------------------
// The filter
// ---------------------------------------------------------------------------

/// A YAML value.
#[verifier::external_type_specification]
#[verifier::external_body]
pub struct ExYamlValue(serde_yaml::Value);

/// Puts stored history before the input of requests that continue a response or
/// a conversation.
#[derive(Debug)]
pub struct RehydrateFilter;

impl RehydrateFilter {
    /// A filter from its configuration, which has no fields.
    pub fn from_config(_config: &serde_yaml::Value) -> (made: Result<RehydrateFilter, FilterError>)
        ensures
            made is Ok,
    {
        Ok(RehydrateFilter)
    }

    /// The filter's name.
    pub fn name(&self) -> (name: &'static str)
        ensures
            name@ == "rehydrate"@,
    {
        "rehydrate"
    }

    /// The filter reads the request body and replaces it.
    pub fn request_body_access(&self) -> (access: BodyAccess)
        ensures
            access == BodyAccess::ReadWrite,
    {
        BodyAccess::ReadWrite
    }

    /// The filter wants the whole request body at once.
    pub fn request_body_mode(&self) -> (mode: BodyMode)
        ensures
            mode == (BodyMode::StreamBuffer { max_bytes: Some(MAX_JSON_BODY_BYTES) }),
    {
        BodyMode::StreamBuffer { max_bytes: Some(MAX_JSON_BODY_BYTES) }
    }

    /// The request goes on to its body.
    pub fn on_request<'a, T>(&self, _ctx: &HttpFilterContext<'a, T>) -> (decided: Result<FilterAction, FilterError>)
        ensures
            decided == Ok::<FilterAction, FilterError>(FilterAction::Continue),
    {
        Ok(FilterAction::Continue)
    }

    /// What comes next once the request body, or a part of it, is there.
    pub fn on_request_body<'a, T>(
        &self,
        ctx: &HttpFilterContext<'a, T>,
        body: &Option<Vec<u8>>,
        end_of_stream: bool,
    ) -> (step: Step<'a, T>)
        ensures
            step@ == request_step(*ctx, *body, end_of_stream),
    {
        if !end_of_stream {
            return Step::Done(FilterAction::Continue);
        }
        if !same_text(ctx.method.as_str(), "POST") {
            return Step::Done(FilterAction::Continue);
        }
        let responses = match ctx.get_metadata(FORMAT_METADATA_KEY) {
            Some(format) => same_text(format, RESPONSES_FORMAT),
            None => false,
        };
        if !responses {
            return Step::Done(FilterAction::Release);
        }
        rehydrate_body(ctx, body)
    }
}

// ---------------------------------------------------------------------------
// Laws
// ---------------------------------------------------------------------------

/// A request that names a previous response continues from it, whatever
/// conversation it names besides.
pub proof fn lemma_previous_response_comes_first(request: JsonView, id: Seq<char>)
    requires
        request.member("previous_response_id"@) == Some(JsonView::String(id)),
    ensures
        source_in(request) == Ok::<Option<SourceView>, ActionView>(Some(SourceView::PreviousResponse(id))),
{
}

/// A conversation may be named by its ID alone or by an object with that `id`:
/// both say the same.
pub proof fn lemma_conversation_forms_are_equivalent(conversation: JsonView, id: Seq<char>)
    requires
        conversation.member("id"@) == Some(JsonView::String(id)),
    ensures
        conversation_id_in(conversation) == conversation_id_in(JsonView::String(id)),
{
}

/// Whatever request names a source is an object, as going on with it requires.
pub proof fn lemma_source_is_in_an_object(request: JsonView)
    requires
        source_in(request) matches Ok(Some(_)),
    ensures
        request is Object,
{
}

/// Rehydrating changes the input of a request and nothing else. The input starts
/// with the history, in its order, and goes on with what the request brought.
pub proof fn lemma_history_comes_before_input(request: JsonView, previous: JsonView, name: Seq<char>)
    requires
        request is Object,
    ensures
        name != "input"@ ==> enriched(request, previous).member(name) == request.member(name),
        enriched(request, previous).member("input"@) matches Some(JsonView::Array(items)) && {
            let history = as_items(previous).len() as int;
            &&& items.take(history) == as_items(previous)
            &&& items.skip(history) == as_items(current_input(request))
        },
{
    let history = as_items(previous);
    let current = as_items(current_input(request));
    assert((history + current).take(history.len() as int) =~= history);
    assert((history + current).skip(history.len() as int) =~= current);
}

/// A request is rehydrated from a stored response only where the response is
/// completed.
pub proof fn lemma_only_completed_responses_continue(
    fetched: Result<Option<ResponseRecord>, StoreError>,
    id: Seq<char>,
)
    requires
        usable_response(fetched, id) is Ok,
    ensures
        fetched matches Ok(Some(record)) && record@.response_object.member("status"@) == Some(
            JsonView::String("completed"@),
        ),
{
    reveal_strlit("unknown");
    reveal_strlit("completed");
    assert("unknown"@.len() == 7 && "completed"@.len() == 9);
}

/// Whether an action is a rejection that tells an error.
pub open spec fn tells_error(action: ActionView) -> bool {
    ||| exists|message: Seq<char>| action == #[trigger] invalid_request(message)
    ||| exists|message: Seq<char>| action == #[trigger] invalid_json(message)
    ||| exists|message: Seq<char>| action == #[trigger] not_found(message)
    ||| exists|message: Seq<char>| action == #[trigger] server_error(message)
}

/// Every rejection tells its error: a status of 400 or 404 for a fault of the
/// client or of 500 for one of the server, and a JSON body with a message, a
/// type and a code.
pub proof fn lemma_rejections_tell_their_error<'a, T>(
    ctx: HttpFilterContext<'a, T>,
    body: Option<Vec<u8>>,
    end_of_stream: bool,
    response: Result<Option<ResponseRecord>, StoreError>,
    conversation: Result<Option<ConversationRecord>, StoreError>,
    id: Seq<char>,
)
    ensures
        request_step(ctx, body, end_of_stream) matches StepView::Done(action) ==> action == ActionView::Continue
            || action == ActionView::Release || tells_error(action),
        usable_response(response, id) matches Err(action) ==> tells_error(action),
        usable_conversation(conversation, id) matches Err(action) ==> tells_error(action),
{
    assert forall|message: Seq<char>| #[trigger] tells_error(invalid_request(message)) by {}
    assert forall|message: Seq<char>| #[trigger] tells_error(invalid_json(message)) by {}
    assert forall|message: Seq<char>| #[trigger] tells_error(not_found(message)) by {}
    assert forall|message: Seq<char>| #[trigger] tells_error(server_error(message)) by {}
}

/// Continuing a conversation loses nothing and turns nothing around: where its
/// stored messages are an array, the new input starts with each of them at its
/// place and goes on with what the request brought, whether that is an array, a
/// single value or nothing, which counts as `null`.
pub proof fn lemma_conversation_is_continued_whole(request: JsonView, stored: Seq<JsonView>, i: int)
    requires
        request is Object || request is Null,
    ensures
        enriched(request, JsonView::Array(stored)).member("input"@) matches Some(JsonView::Array(input)) && {
            &&& 0 <= i < stored.len() ==> input[i] == stored[i]
            &&& match request.member("input"@) {
                Some(JsonView::Array(brought)) => input.len() == stored.len() + brought.len() && (0 <= i
                    < brought.len() ==> input[stored.len() + i] == brought[i]),
                Some(brought) => input.len() == stored.len() + 1 && input[stored.len() as int] == brought,
                None => input.len() == stored.len() + 1 && input[stored.len() as int] == JsonView::Null,
            }
        },
{
}

/// Stored messages that are no array are put before the request's input as one
/// item.
pub proof fn lemma_single_message_comes_first(request: JsonView, stored: JsonView, i: int)
    requires
        request is Object || request is Null,
        !(stored is Array),
    ensures
        enriched(request, stored).member("input"@) matches Some(JsonView::Array(input)) && {
            &&& input[0] == stored
            &&& match request.member("input"@) {
                Some(JsonView::Array(brought)) => input.len() == 1 + brought.len() && (0 <= i < brought.len()
                    ==> input[1 + i] == brought[i]),
                Some(brought) => input.len() == 2 && input[1] == brought,
                None => input.len() == 2 && input[1] == JsonView::Null,
            }
        },
{
}

/// Continuing a response loses nothing and turns nothing around: where its stored
/// messages are an array that is not empty, the new input starts with each of
/// them at its place and goes on with what the request brought.
pub proof fn lemma_stored_messages_are_continued_whole(
    request: JsonView,
    record: ResponseView,
    stored: Seq<JsonView>,
    i: int,
)
    requires
        request is Object || request is Null,
        record.messages == JsonView::Array(stored),
        stored.len() > 0,
    ensures
        previous_messages(record) == record.messages,
        enriched(request, previous_messages(record)).member("input"@) matches Some(JsonView::Array(input)) && {
            &&& 0 <= i < stored.len() ==> input[i] == stored[i]
            &&& match request.member("input"@) {
                Some(JsonView::Array(brought)) => input.len() == stored.len() + brought.len() && (0 <= i
                    < brought.len() ==> input[stored.len() + i] == brought[i]),
                Some(brought) => input.len() == stored.len() + 1 && input[stored.len() as int] == brought,
                None => input.len() == stored.len() + 1 && input[stored.len() as int] == JsonView::Null,
            }
        },
{
    lemma_conversation_is_continued_whole(request, stored, i);
}

/// Where a stored response has no messages, they are made up of its whole input
/// and its whole output, in this order: the items of an input that is an array,
/// the input itself where it is another value, nothing where it is `null`; then
/// the items of the output where that is an array.
pub proof fn lemma_missing_messages_are_made_up(record: ResponseView, i: int)
    requires
        !(record.messages is Array) || record.messages->Array_0.len() == 0,
    ensures
        previous_messages(record) matches JsonView::Array(made) && {
            let taken: nat = match record.input {
                JsonView::Null => 0,
                JsonView::Array(items) => items.len(),
                _ => 1,
            };
            &&& match record.input {
                JsonView::Null => true,
                JsonView::Array(items) => 0 <= i < items.len() ==> made[i] == items[i],
                other => made[0] == other,
            }
            &&& match record.response_object.member("output"@) {
                Some(JsonView::Array(items)) => made.len() == taken + items.len() && (0 <= i < items.len()
                    ==> made[taken + i] == items[i]),
                _ => made.len() == taken,
            }
        },
{
}

/// Continuing a response without messages puts all of what they are made up of
/// before what the request brought.
pub proof fn lemma_made_up_messages_are_continued_whole(request: JsonView, record: ResponseView, i: int)
    requires
        request is Object || request is Null,
        !(record.messages is Array) || record.messages->Array_0.len() == 0,
    ensures
        previous_messages(record) matches JsonView::Array(made) && (enriched(request, previous_messages(record)).member(
            "input"@,
        ) matches Some(JsonView::Array(input)) && {
            &&& 0 <= i < made.len() ==> input[i] == made[i]
            &&& match request.member("input"@) {
                Some(JsonView::Array(brought)) => input.len() == made.len() + brought.len() && (0 <= i
                    < brought.len() ==> input[made.len() + i] == brought[i]),
                Some(brought) => input.len() == made.len() + 1 && input[made.len() as int] == brought,
                None => input.len() == made.len() + 1 && input[made.len() as int] == JsonView::Null,
            }
        }),
{
    lemma_conversation_is_continued_whole(request, previous_messages(record)->Array_0, i);
}

/// Rehydrating keeps every member of a request but its input.
pub proof fn lemma_other_members_are_kept(request: JsonView, previous: JsonView, name: Seq<char>)
    requires
        request is Object || request is Null,
        name != "input"@,
    ensures
        enriched(request, previous) is Object,
        enriched(request, previous).member(name) == request.member(name),
{
}

/// The JSON of an error holds an object under `error` and nothing else, and that
/// object the message, the type and the code, each whole, and nothing else.
pub proof fn lemma_error_json_tells_all(
    message: Seq<char>,
    kind: Seq<char>,
    code: Seq<char>,
    name: Seq<char>,
)
    ensures
        error_json(message, kind, code).member("error"@) matches Some(detail) && {
            &&& detail.member("message"@) == Some(JsonView::String(message))
            &&& detail.member("type"@) == Some(JsonView::String(kind))
            &&& detail.member("code"@) == Some(JsonView::String(code))
            &&& name != "message"@ && name != "type"@ && name != "code"@ ==> detail.member(name) is None
        },
        name != "error"@ ==> error_json(message, kind, code).member(name) is None,
{
    reveal_strlit("message");
    reveal_strlit("type");
    reveal_strlit("code");
    assert("message"@.len() == 7 && "type"@.len() == 4 && "code"@.len() == 4);
    assert("type"@[0] != "code"@[0]);
}

/// Each rejection has its status, the type of its body and the JSON of its error,
/// with the message whole.
pub proof fn lemma_rejections_in_words(message: Seq<char>)
    ensures
        ({
            let reply = |status: u16, kind: Seq<char>, code: Seq<char>|
                ActionView::Reject(
                    RejectionView {
                        status,
                        headers: seq![("content-type"@, "application/json"@)],
                        body: Some(crate::json::json_bytes(error_json(message, kind, code))),
                    },
                );
            &&& invalid_request(message) == reply(400, "invalid_request_error"@, "invalid_value"@)
            &&& invalid_json(message) == reply(400, "invalid_request_error"@, "invalid_json"@)
            &&& not_found(message) == reply(404, "not_found"@, "not_found"@)
            &&& server_error(message) == reply(500, "server_error"@, "server_error"@)
        }),
{
}

/// A request names a conversation by a string or by the `id` of an object, and is
/// continued from it where it names no previous response. The ID is taken whole.
pub proof fn lemma_named_conversation_is_the_source(request: JsonView, id: Seq<char>)
    requires
        request.member("previous_response_id"@) is None || request.member("previous_response_id"@) == Some(
            JsonView::Null,
        ),
        id.len() > 0,
        request.member("conversation"@) matches Some(conversation) && (conversation == JsonView::String(id) || (
        conversation is Object && conversation.member("id"@) == Some(JsonView::String(id)))),
    ensures
        source_in(request) == Ok::<Option<SourceView>, ActionView>(Some(SourceView::Conversation(id))),
{
}

/// A request that names neither a previous response nor a conversation has no
/// source: both are missing or `null`, or the conversation is an object without
/// `id`.
pub proof fn lemma_unnamed_history_is_no_source(request: JsonView)
    requires
        request.member("previous_response_id"@) is None || request.member("previous_response_id"@) == Some(
            JsonView::Null,
        ),
        match request.member("conversation"@) {
            None => true,
            Some(JsonView::Null) => true,
            Some(conversation) => conversation is Object && conversation.member("id"@) is None,
        },
    ensures
        source_in(request) == Ok::<Option<SourceView>, ActionView>(None),
{
}

/// What a request names history by has to be of the right form: each other form
/// is refused with a message of its own, a previous response before a
/// conversation.
pub proof fn lemma_malformed_names_are_refused(request: JsonView)
    ensures
        request.member("previous_response_id"@) matches Some(previous) ==> !(previous is Null) && !(previous is String)
            ==> source_in(request) == Err::<Option<SourceView>, ActionView>(
            invalid_request("previous_response_id must be a string"@),
        ),
        (request.member("previous_response_id"@) is None || request.member("previous_response_id"@) == Some(
            JsonView::Null,
        )) ==> match request.member("conversation"@) {
            Some(JsonView::String(id)) => id.len() == 0 ==> source_in(request) == Err::<Option<SourceView>, ActionView>(
                invalid_request("conversation.id must not be empty"@),
            ),
            Some(JsonView::Object(members)) => match JsonView::Object(members).member("id"@) {
                Some(JsonView::String(id)) => id.len() == 0 ==> source_in(request) == Err::<
                    Option<SourceView>,
                    ActionView,
                >(invalid_request("conversation.id must not be empty"@)),
                Some(_) => source_in(request) == Err::<Option<SourceView>, ActionView>(
                    invalid_request("conversation.id must be a string"@),
                ),
                None => true,
            },
            Some(JsonView::Null) => true,
            Some(_) => source_in(request) == Err::<Option<SourceView>, ActionView>(
                invalid_request("conversation must be an object"@),
            ),
            None => true,
        },
{
}

/// What becomes of a fetch of a previous response: a store that fails is told as
/// a fault of the server, a response that is not there or not completed as one of
/// the client, by its ID or its status; a completed one is continued as it is.
pub proof fn lemma_fetched_response_is_judged(fetched: Result<Option<ResponseRecord>, StoreError>, id: Seq<char>)
    ensures
        match fetched {
            Err(_) => usable_response(fetched, id) == Err::<ResponseView, ActionView>(
                server_error("failed to fetch previous response"@),
            ),
            Ok(None) => usable_response(fetched, id) == Err::<ResponseView, ActionView>(
                invalid_request("response '"@ + id + "' not found"@),
            ),
            Ok(Some(record)) => match record@.response_object.member("status"@) {
                Some(JsonView::String(status)) => {
                    &&& status == "completed"@ ==> usable_response(fetched, id) == Ok::<ResponseView, ActionView>(
                        record@,
                    )
                    &&& status != "completed"@ ==> usable_response(fetched, id) == Err::<ResponseView, ActionView>(
                        invalid_request("cannot continue from response with status '"@ + status + "'"@),
                    )
                },
                _ => usable_response(fetched, id) == Err::<ResponseView, ActionView>(
                    invalid_request("cannot continue from response with status '"@ + "unknown"@ + "'"@),
                ),
            },
        },
{
    reveal_strlit("unknown");
    reveal_strlit("completed");
    assert("unknown"@.len() == 7 && "completed"@.len() == 9);
}

/// What becomes of a fetch of a conversation: a store that fails is told as a
/// fault of the server, a conversation that is not there as not found, by its ID;
/// any other is continued as it is.
pub proof fn lemma_fetched_conversation_is_judged(
    fetched: Result<Option<ConversationRecord>, StoreError>,
    id: Seq<char>,
)
    ensures
        match fetched {
            Err(_) => usable_conversation(fetched, id) == Err::<ConversationView, ActionView>(
                server_error("failed to fetch conversation"@),
            ),
            Ok(None) => usable_conversation(fetched, id) == Err::<ConversationView, ActionView>(
                not_found("conversation '"@ + id + "' not found"@),
            ),
            Ok(Some(record)) => usable_conversation(fetched, id) == Ok::<ConversationView, ActionView>(record@),
        },
{
}

/// A request is let through unread where its body is not complete, where it is no
/// POST, where it is not in the Responses format, and where it has no body.
pub proof fn lemma_other_requests_pass<'a, T>(
    ctx: HttpFilterContext<'a, T>,
    body: Option<Vec<u8>>,
    end_of_stream: bool,
)
    ensures
        !end_of_stream ==> request_step(ctx, body, end_of_stream) == StepView::<T>::Done(ActionView::Continue),
        ctx.method@ != "POST"@ ==> request_step(ctx, body, end_of_stream) == StepView::<T>::Done(ActionView::Continue),
        end_of_stream && ctx.method@ == "POST"@ && (!ctx.metadata@.contains_key("openai_responses_format.format"@)
            || ctx.metadata@["openai_responses_format.format"@] != "openai_responses"@) ==> request_step(
            ctx,
            body,
            end_of_stream,
        ) == StepView::<T>::Done(ActionView::Release),
        end_of_stream && ctx.method@ == "POST"@ && body is None ==> request_step(ctx, body, end_of_stream)
            == StepView::<T>::Done(ActionView::Release),
{
}

/// A complete POST in the Responses format is read. A body that is no JSON is
/// refused with the reader's words, a request that names its history wrongly with
/// that refusal, and one that names none passes. One that names a source needs
/// the default store of the server: without it the request is refused, and with
/// it the record of that ID is fetched from it, for the tenant that is noted or
/// the default one, to go on with the request as it was read.
pub proof fn lemma_responses_requests_are_followed<'a, T>(ctx: HttpFilterContext<'a, T>, bytes: Vec<u8>)
    requires
        ctx.method@ == "POST"@,
        ctx.metadata@.contains_key("openai_responses_format.format"@),
        ctx.metadata@["openai_responses_format.format"@] == "openai_responses"@,
    ensures
        ({
            let step = request_step(ctx, Some(bytes), true);
            let tenant_id = if ctx.metadata@.contains_key("responses.tenant_id"@) {
                ctx.metadata@["responses.tenant_id"@]
            } else {
                "default"@
            };
            match crate::json::json_of_bytes(bytes@) {
                Err(message) => step == StepView::<T>::Done(invalid_json("invalid request body: "@ + message)),
                Ok(request) => match source_in(request) {
                    Err(action) => step == StepView::<T>::Done(action),
                    Ok(None) => step == StepView::<T>::Done(ActionView::Release),
                    Ok(Some(source)) => if ctx.response_stores is Some && ctx.response_stores->0@.contains_key(
                        "default"@,
                    ) {
                        let store = ctx.response_stores->0@["default"@];
                        match source {
                            SourceView::PreviousResponse(id) => step == StepView::FetchResponse(
                                FetchView { store, tenant_id, id, request },
                            ),
                            SourceView::Conversation(id) => step == StepView::FetchConversation(
                                FetchView { store, tenant_id, id, request },
                            ),
                        }
                    } else {
                        step == StepView::<T>::Done(server_error("response store is not available"@))
                    },
                },
            }
        }),
{
}

/// The view of a fetch holds the store, the tenant, the ID and the request, each
/// whole; that of a source its ID.
pub proof fn lemma_fetch_view_is_whole<'a, T>(fetch: Fetch<'a, T>, id: String)
    ensures
        fetch@.store == *fetch.store,
        fetch@.tenant_id == fetch.tenant_id@,
        fetch@.id == fetch.id@,
        fetch@.request == fetch.request@,
        Step::FetchResponse(fetch)@ == StepView::FetchResponse(fetch@),
        Step::FetchConversation(fetch)@ == StepView::FetchConversation(fetch@),
        RehydrateSource::PreviousResponse(id)@ == SourceView::PreviousResponse(id@),
        RehydrateSource::Conversation(id)@ == SourceView::Conversation(id@),
{
}

} // verus!
